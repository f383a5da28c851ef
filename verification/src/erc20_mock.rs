//! The ERC20 mock contract's call layer.
//!
//! One struct per contract function holds its input parameters; the
//! `ERC20MockCalls` enum gathers them, with a verified encoder producing
//! the selector-plus-words calldata and a strict verified decoder that
//! accepts exactly the canonical encodings and returns the unique call
//! they encode. `ERC20Mock` binds the calls to a contract address, one
//! method per contract function, as a caller would use them; the
//! `...Return` structs hold each function's output values, and the two
//! event structs with `ERC20MockEvents` mirror the contract's log
//! entries.

use vstd::prelude::*;

use crate::abi::{
    address_word, bool_word, push_address_word, push_u256_word, read_address_word, read_bool_word,
    read_u256_word, read_u8_word, u256_word, u8_word, Address, U256,
};

verus! {

/// Decoding calldata failed: it is not the canonical encoding of any
/// call of this contract.
#[derive(Debug, Clone, Copy, PartialEq, Eq, Structural)]
pub enum AbiError {
    InvalidData,
}

/// Input parameters of the `allowance(address,address)` function (selector `0xdd62ed3e`).
#[derive(Debug, Clone, Copy, PartialEq, Eq, Hash, Structural)]
pub struct AllowanceCall {
    pub owner: Address,
    pub spender: Address,
}

/// Input parameters of the `approve(address,uint256)` function (selector `0x095ea7b3`).
#[derive(Debug, Clone, Copy, PartialEq, Eq, Hash, Structural)]
pub struct ApproveCall {
    pub spender: Address,
    pub amount: U256,
}

/// Input parameters of the `balanceOf(address)` function (selector `0x70a08231`).
#[derive(Debug, Clone, Copy, PartialEq, Eq, Hash, Structural)]
pub struct BalanceOfCall {
    pub account: Address,
}

/// Input parameters of the `burn(address,uint256)` function (selector `0x9dc29fac`).
#[derive(Debug, Clone, Copy, PartialEq, Eq, Hash, Structural)]
pub struct BurnCall {
    pub to: Address,
    pub amount: U256,
}

/// Input parameters of the `decimals()` function (selector `0x313ce567`).
#[derive(Debug, Clone, Copy, PartialEq, Eq, Hash, Structural)]
pub struct DecimalsCall;

/// Input parameters of the `decreaseAllowance(address,uint256)` function (selector `0xa457c2d7`).
#[derive(Debug, Clone, Copy, PartialEq, Eq, Hash, Structural)]
pub struct DecreaseAllowanceCall {
    pub spender: Address,
    pub subtracted_value: U256,
}

/// Input parameters of the `increaseAllowance(address,uint256)` function (selector `0x39509351`).
#[derive(Debug, Clone, Copy, PartialEq, Eq, Hash, Structural)]
pub struct IncreaseAllowanceCall {
    pub spender: Address,
    pub added_value: U256,
}

/// Input parameters of the `mint(address,uint256)` function (selector `0x40c10f19`).
#[derive(Debug, Clone, Copy, PartialEq, Eq, Hash, Structural)]
pub struct MintCall {
    pub to: Address,
    pub amount: U256,
}

/// Input parameters of the `name()` function (selector `0x06fdde03`).
#[derive(Debug, Clone, Copy, PartialEq, Eq, Hash, Structural)]
pub struct NameCall;

/// Input parameters of the `symbol()` function (selector `0x95d89b41`).
#[derive(Debug, Clone, Copy, PartialEq, Eq, Hash, Structural)]
pub struct SymbolCall;

/// Input parameters of the `totalSupply()` function (selector `0x18160ddd`).
#[derive(Debug, Clone, Copy, PartialEq, Eq, Hash, Structural)]
pub struct TotalSupplyCall;

/// Input parameters of the `transfer(address,uint256)` function (selector `0xa9059cbb`).
#[derive(Debug, Clone, Copy, PartialEq, Eq, Hash, Structural)]
pub struct TransferCall {
    pub recipient: Address,
    pub amount: U256,
}

/// Input parameters of the `transferFrom(address,address,uint256)` function (selector `0x23b872dd`).
#[derive(Debug, Clone, Copy, PartialEq, Eq, Hash, Structural)]
pub struct TransferFromCall {
    pub sender: Address,
    pub recipient: Address,
    pub amount: U256,
}

/// Container for every call of the contract.
#[derive(Debug, Clone, Copy, PartialEq, Eq, Hash, Structural)]
pub enum ERC20MockCalls {
    Allowance(AllowanceCall),
    Approve(ApproveCall),
    BalanceOf(BalanceOfCall),
    Burn(BurnCall),
    Decimals(DecimalsCall),
    DecreaseAllowance(DecreaseAllowanceCall),
    IncreaseAllowance(IncreaseAllowanceCall),
    Mint(MintCall),
    Name(NameCall),
    Symbol(SymbolCall),
    TotalSupply(TotalSupplyCall),
    Transfer(TransferCall),
    TransferFrom(TransferFromCall),
}

/// The four-byte selector of a call.
pub open spec fn selector_of(c: ERC20MockCalls) -> Seq<u8> {
    match c {
        ERC20MockCalls::Allowance(_) => seq![0xddu8, 0x62u8, 0xedu8, 0x3eu8],
        ERC20MockCalls::Approve(_) => seq![0x09u8, 0x5eu8, 0xa7u8, 0xb3u8],
        ERC20MockCalls::BalanceOf(_) => seq![0x70u8, 0xa0u8, 0x82u8, 0x31u8],
        ERC20MockCalls::Burn(_) => seq![0x9du8, 0xc2u8, 0x9fu8, 0xacu8],
        ERC20MockCalls::Decimals(_) => seq![0x31u8, 0x3cu8, 0xe5u8, 0x67u8],
        ERC20MockCalls::DecreaseAllowance(_) => seq![0xa4u8, 0x57u8, 0xc2u8, 0xd7u8],
        ERC20MockCalls::IncreaseAllowance(_) => seq![0x39u8, 0x50u8, 0x93u8, 0x51u8],
        ERC20MockCalls::Mint(_) => seq![0x40u8, 0xc1u8, 0x0fu8, 0x19u8],
        ERC20MockCalls::Name(_) => seq![0x06u8, 0xfdu8, 0xdeu8, 0x03u8],
        ERC20MockCalls::Symbol(_) => seq![0x95u8, 0xd8u8, 0x9bu8, 0x41u8],
        ERC20MockCalls::TotalSupply(_) => seq![0x18u8, 0x16u8, 0x0du8, 0xddu8],
        ERC20MockCalls::Transfer(_) => seq![0xa9u8, 0x05u8, 0x9cu8, 0xbbu8],
        ERC20MockCalls::TransferFrom(_) => seq![0x23u8, 0xb8u8, 0x72u8, 0xddu8],
    }
}

/// The argument words of a call, in parameter order.
pub open spec fn args_encoding(c: ERC20MockCalls) -> Seq<u8> {
    match c {
        ERC20MockCalls::Allowance(x) => address_word(x.owner) + address_word(x.spender),
        ERC20MockCalls::Approve(x) => address_word(x.spender) + u256_word(x.amount),
        ERC20MockCalls::BalanceOf(x) => address_word(x.account),
        ERC20MockCalls::Burn(x) => address_word(x.to) + u256_word(x.amount),
        ERC20MockCalls::Decimals(_) => Seq::empty(),
        ERC20MockCalls::DecreaseAllowance(x) => address_word(x.spender) + u256_word(x.subtracted_value),
        ERC20MockCalls::IncreaseAllowance(x) => address_word(x.spender) + u256_word(x.added_value),
        ERC20MockCalls::Mint(x) => address_word(x.to) + u256_word(x.amount),
        ERC20MockCalls::Name(_) => Seq::empty(),
        ERC20MockCalls::Symbol(_) => Seq::empty(),
        ERC20MockCalls::TotalSupply(_) => Seq::empty(),
        ERC20MockCalls::Transfer(x) => address_word(x.recipient) + u256_word(x.amount),
        ERC20MockCalls::TransferFrom(x) => address_word(x.sender) + address_word(x.recipient) + u256_word(x.amount),
    }
}

/// The calldata of a call: its selector followed by its argument words.
pub open spec fn call_encoding(c: ERC20MockCalls) -> Seq<u8> {
    selector_of(c) + args_encoding(c)
}

/// The calldata's shape, variant by variant: four selector bytes, then
/// the argument words.
proof fn lemma_encoding_shape(c: ERC20MockCalls)
    ensures
        selector_of(c).len() == 4,
        call_encoding(c).len() == 4 + args_encoding(c).len(),
        forall|k: int| 0 <= k < 4 ==> #[trigger] call_encoding(c)[k] == selector_of(c)[k],
        call_encoding(c).subrange(4, call_encoding(c).len() as int) == args_encoding(c),
        c is Allowance ==> args_encoding(c).len() == 64,
        c is Approve ==> args_encoding(c).len() == 64,
        c is BalanceOf ==> args_encoding(c).len() == 32,
        c is Burn ==> args_encoding(c).len() == 64,
        c is Decimals ==> args_encoding(c).len() == 0,
        c is DecreaseAllowance ==> args_encoding(c).len() == 64,
        c is IncreaseAllowance ==> args_encoding(c).len() == 64,
        c is Mint ==> args_encoding(c).len() == 64,
        c is Name ==> args_encoding(c).len() == 0,
        c is Symbol ==> args_encoding(c).len() == 0,
        c is TotalSupply ==> args_encoding(c).len() == 0,
        c is Transfer ==> args_encoding(c).len() == 64,
        c is TransferFrom ==> args_encoding(c).len() == 96,
{
    assert(call_encoding(c).subrange(4, call_encoding(c).len() as int) =~= args_encoding(c));
}
impl ERC20MockCalls {
    /// Encodes the call as calldata: its selector followed by its
    /// argument words.
    pub fn encode(&self) -> (r: Vec<u8>)
        ensures
            r@ == call_encoding(*self),
    {
        let mut out: Vec<u8> = Vec::new();
        match self {
            ERC20MockCalls::Allowance(x) => {
                out.push(0xddu8);
                out.push(0x62u8);
                out.push(0xedu8);
                out.push(0x3eu8);
                proof {
                    assert(out@ =~= selector_of(*self));
                }
                push_address_word(&mut out, x.owner);
                push_address_word(&mut out, x.spender);
            },
            ERC20MockCalls::Approve(x) => {
                out.push(0x09u8);
                out.push(0x5eu8);
                out.push(0xa7u8);
                out.push(0xb3u8);
                proof {
                    assert(out@ =~= selector_of(*self));
                }
                push_address_word(&mut out, x.spender);
                push_u256_word(&mut out, x.amount);
            },
            ERC20MockCalls::BalanceOf(x) => {
                out.push(0x70u8);
                out.push(0xa0u8);
                out.push(0x82u8);
                out.push(0x31u8);
                proof {
                    assert(out@ =~= selector_of(*self));
                }
                push_address_word(&mut out, x.account);
            },
            ERC20MockCalls::Burn(x) => {
                out.push(0x9du8);
                out.push(0xc2u8);
                out.push(0x9fu8);
                out.push(0xacu8);
                proof {
                    assert(out@ =~= selector_of(*self));
                }
                push_address_word(&mut out, x.to);
                push_u256_word(&mut out, x.amount);
            },
            ERC20MockCalls::Decimals(_) => {
                out.push(0x31u8);
                out.push(0x3cu8);
                out.push(0xe5u8);
                out.push(0x67u8);
                proof {
                    assert(out@ =~= selector_of(*self));
                }
            },
            ERC20MockCalls::DecreaseAllowance(x) => {
                out.push(0xa4u8);
                out.push(0x57u8);
                out.push(0xc2u8);
                out.push(0xd7u8);
                proof {
                    assert(out@ =~= selector_of(*self));
                }
                push_address_word(&mut out, x.spender);
                push_u256_word(&mut out, x.subtracted_value);
            },
            ERC20MockCalls::IncreaseAllowance(x) => {
                out.push(0x39u8);
                out.push(0x50u8);
                out.push(0x93u8);
                out.push(0x51u8);
                proof {
                    assert(out@ =~= selector_of(*self));
                }
                push_address_word(&mut out, x.spender);
                push_u256_word(&mut out, x.added_value);
            },
            ERC20MockCalls::Mint(x) => {
                out.push(0x40u8);
                out.push(0xc1u8);
                out.push(0x0fu8);
                out.push(0x19u8);
                proof {
                    assert(out@ =~= selector_of(*self));
                }
                push_address_word(&mut out, x.to);
                push_u256_word(&mut out, x.amount);
            },
            ERC20MockCalls::Name(_) => {
                out.push(0x06u8);
                out.push(0xfdu8);
                out.push(0xdeu8);
                out.push(0x03u8);
                proof {
                    assert(out@ =~= selector_of(*self));
                }
            },
            ERC20MockCalls::Symbol(_) => {
                out.push(0x95u8);
                out.push(0xd8u8);
                out.push(0x9bu8);
                out.push(0x41u8);
                proof {
                    assert(out@ =~= selector_of(*self));
                }
            },
            ERC20MockCalls::TotalSupply(_) => {
                out.push(0x18u8);
                out.push(0x16u8);
                out.push(0x0du8);
                out.push(0xddu8);
                proof {
                    assert(out@ =~= selector_of(*self));
                }
            },
            ERC20MockCalls::Transfer(x) => {
                out.push(0xa9u8);
                out.push(0x05u8);
                out.push(0x9cu8);
                out.push(0xbbu8);
                proof {
                    assert(out@ =~= selector_of(*self));
                }
                push_address_word(&mut out, x.recipient);
                push_u256_word(&mut out, x.amount);
            },
            ERC20MockCalls::TransferFrom(x) => {
                out.push(0x23u8);
                out.push(0xb8u8);
                out.push(0x72u8);
                out.push(0xddu8);
                proof {
                    assert(out@ =~= selector_of(*self));
                }
                push_address_word(&mut out, x.sender);
                push_address_word(&mut out, x.recipient);
                push_u256_word(&mut out, x.amount);
            },
        }
        proof {
            assert(out@ =~= call_encoding(*self));
        }
        out
    }

    /// Decodes calldata into the call it canonically encodes. Succeeds
    /// exactly on canonical encodings: a returned call re-encodes to the
    /// given bytes, and an error means no call encodes to them.
    #[verifier::rlimit(100)]
    pub fn decode(data: &Vec<u8>) -> (r: Result<ERC20MockCalls, AbiError>)
        ensures
            r matches Ok(c) ==> data@ == call_encoding(c),
            r is Err ==> forall|c: ERC20MockCalls| data@ != call_encoding(c),
    {
        let n = data.len();
        proof {
            assert(n == data@.len());
        }
        if n < 4 {
            proof {
                assert forall|c: ERC20MockCalls| data@ != call_encoding(c) by {
                    lemma_encoding_shape(c);
                }
            }
            return Err(AbiError::InvalidData);
        }
        let s0 = data[0];
        let s1 = data[1];
        let s2 = data[2];
        let s3 = data[3];
        if s0 == 0xdd && s1 == 0x62 && s2 == 0xed && s3 == 0x3e {
            if n != 68 {
                proof {
                    assert forall|c: ERC20MockCalls| data@ != call_encoding(c) by {
                        lemma_encoding_shape(c);
                        if data@ == call_encoding(c) {
                            assert(data@[0] == selector_of(c)[0] && data@[1] == selector_of(c)[1]
                                && data@[2] == selector_of(c)[2] && data@[3] == selector_of(c)[3]);
                        }
                    }
                }
                return Err(AbiError::InvalidData);
            }
            let owner = match read_address_word(data, 4) {
                Some(a) => a,
                None => {
                    proof {
                        assert forall|c: ERC20MockCalls| data@ != call_encoding(c) by {
                            lemma_encoding_shape(c);
                            if data@ == call_encoding(c) {
                                assert(data@[0] == selector_of(c)[0] && data@[1] == selector_of(c)[1]
                                    && data@[2] == selector_of(c)[2] && data@[3] == selector_of(c)[3]);
                                match c {
                                    ERC20MockCalls::Allowance(x) => {
                                        assert(data@.subrange(4, 36) =~= address_word(x.owner));
                                    },
                                    _ => {},
                                }
                            }
                        }
                    }
                    return Err(AbiError::InvalidData);
                },
            };
            let spender = match read_address_word(data, 36) {
                Some(a) => a,
                None => {
                    proof {
                        assert forall|c: ERC20MockCalls| data@ != call_encoding(c) by {
                            lemma_encoding_shape(c);
                            if data@ == call_encoding(c) {
                                assert(data@[0] == selector_of(c)[0] && data@[1] == selector_of(c)[1]
                                    && data@[2] == selector_of(c)[2] && data@[3] == selector_of(c)[3]);
                                match c {
                                    ERC20MockCalls::Allowance(x) => {
                                        assert(data@.subrange(36, 68) =~= address_word(x.spender));
                                    },
                                    _ => {},
                                }
                            }
                        }
                    }
                    return Err(AbiError::InvalidData);
                },
            };
            let call = ERC20MockCalls::Allowance((AllowanceCall { owner, spender }));
            proof {
                lemma_encoding_shape(call);
                assert(data@ =~= data@.subrange(0, 4) + data@.subrange(4, 36) + data@.subrange(36, 68));
                assert(data@.subrange(0, 4) =~= selector_of(call));
                assert(data@ =~= call_encoding(call));
            }
            return Ok(call);
        }
        if s0 == 0x09 && s1 == 0x5e && s2 == 0xa7 && s3 == 0xb3 {
            if n != 68 {
                proof {
                    assert forall|c: ERC20MockCalls| data@ != call_encoding(c) by {
                        lemma_encoding_shape(c);
                        if data@ == call_encoding(c) {
                            assert(data@[0] == selector_of(c)[0] && data@[1] == selector_of(c)[1]
                                && data@[2] == selector_of(c)[2] && data@[3] == selector_of(c)[3]);
                        }
                    }
                }
                return Err(AbiError::InvalidData);
            }
            let spender = match read_address_word(data, 4) {
                Some(a) => a,
                None => {
                    proof {
                        assert forall|c: ERC20MockCalls| data@ != call_encoding(c) by {
                            lemma_encoding_shape(c);
                            if data@ == call_encoding(c) {
                                assert(data@[0] == selector_of(c)[0] && data@[1] == selector_of(c)[1]
                                    && data@[2] == selector_of(c)[2] && data@[3] == selector_of(c)[3]);
                                match c {
                                    ERC20MockCalls::Approve(x) => {
                                        assert(data@.subrange(4, 36) =~= address_word(x.spender));
                                    },
                                    _ => {},
                                }
                            }
                        }
                    }
                    return Err(AbiError::InvalidData);
                },
            };
            let amount = read_u256_word(data, 36);
            let call = ERC20MockCalls::Approve((ApproveCall { spender, amount }));
            proof {
                lemma_encoding_shape(call);
                assert(data@ =~= data@.subrange(0, 4) + data@.subrange(4, 36) + data@.subrange(36, 68));
                assert(data@.subrange(0, 4) =~= selector_of(call));
                assert(data@ =~= call_encoding(call));
            }
            return Ok(call);
        }
        if s0 == 0x70 && s1 == 0xa0 && s2 == 0x82 && s3 == 0x31 {
            if n != 36 {
                proof {
                    assert forall|c: ERC20MockCalls| data@ != call_encoding(c) by {
                        lemma_encoding_shape(c);
                        if data@ == call_encoding(c) {
                            assert(data@[0] == selector_of(c)[0] && data@[1] == selector_of(c)[1]
                                && data@[2] == selector_of(c)[2] && data@[3] == selector_of(c)[3]);
                        }
                    }
                }
                return Err(AbiError::InvalidData);
            }
            let account = match read_address_word(data, 4) {
                Some(a) => a,
                None => {
                    proof {
                        assert forall|c: ERC20MockCalls| data@ != call_encoding(c) by {
                            lemma_encoding_shape(c);
                            if data@ == call_encoding(c) {
                                assert(data@[0] == selector_of(c)[0] && data@[1] == selector_of(c)[1]
                                    && data@[2] == selector_of(c)[2] && data@[3] == selector_of(c)[3]);
                                match c {
                                    ERC20MockCalls::BalanceOf(x) => {
                                        assert(data@.subrange(4, 36) =~= address_word(x.account));
                                    },
                                    _ => {},
                                }
                            }
                        }
                    }
                    return Err(AbiError::InvalidData);
                },
            };
            let call = ERC20MockCalls::BalanceOf((BalanceOfCall { account }));
            proof {
                lemma_encoding_shape(call);
                assert(data@ =~= data@.subrange(0, 4) + data@.subrange(4, 36));
                assert(data@.subrange(0, 4) =~= selector_of(call));
                assert(data@ =~= call_encoding(call));
            }
            return Ok(call);
        }
        if s0 == 0x9d && s1 == 0xc2 && s2 == 0x9f && s3 == 0xac {
            if n != 68 {
                proof {
                    assert forall|c: ERC20MockCalls| data@ != call_encoding(c) by {
                        lemma_encoding_shape(c);
                        if data@ == call_encoding(c) {
                            assert(data@[0] == selector_of(c)[0] && data@[1] == selector_of(c)[1]
                                && data@[2] == selector_of(c)[2] && data@[3] == selector_of(c)[3]);
                        }
                    }
                }
                return Err(AbiError::InvalidData);
            }
            let to = match read_address_word(data, 4) {
                Some(a) => a,
                None => {
                    proof {
                        assert forall|c: ERC20MockCalls| data@ != call_encoding(c) by {
                            lemma_encoding_shape(c);
                            if data@ == call_encoding(c) {
                                assert(data@[0] == selector_of(c)[0] && data@[1] == selector_of(c)[1]
                                    && data@[2] == selector_of(c)[2] && data@[3] == selector_of(c)[3]);
                                match c {
                                    ERC20MockCalls::Burn(x) => {
                                        assert(data@.subrange(4, 36) =~= address_word(x.to));
                                    },
                                    _ => {},
                                }
                            }
                        }
                    }
                    return Err(AbiError::InvalidData);
                },
            };
            let amount = read_u256_word(data, 36);
            let call = ERC20MockCalls::Burn((BurnCall { to, amount }));
            proof {
                lemma_encoding_shape(call);
                assert(data@ =~= data@.subrange(0, 4) + data@.subrange(4, 36) + data@.subrange(36, 68));
                assert(data@.subrange(0, 4) =~= selector_of(call));
                assert(data@ =~= call_encoding(call));
            }
            return Ok(call);
        }
        if s0 == 0x31 && s1 == 0x3c && s2 == 0xe5 && s3 == 0x67 {
            if n != 4 {
                proof {
                    assert forall|c: ERC20MockCalls| data@ != call_encoding(c) by {
                        lemma_encoding_shape(c);
                        if data@ == call_encoding(c) {
                            assert(data@[0] == selector_of(c)[0] && data@[1] == selector_of(c)[1]
                                && data@[2] == selector_of(c)[2] && data@[3] == selector_of(c)[3]);
                        }
                    }
                }
                return Err(AbiError::InvalidData);
            }
            let call = ERC20MockCalls::Decimals((DecimalsCall));
            proof {
                lemma_encoding_shape(call);
                assert(data@ =~= data@.subrange(0, 4));
                assert(data@.subrange(0, 4) =~= selector_of(call));
                assert(data@ =~= call_encoding(call));
            }
            return Ok(call);
        }
        if s0 == 0xa4 && s1 == 0x57 && s2 == 0xc2 && s3 == 0xd7 {
            if n != 68 {
                proof {
                    assert forall|c: ERC20MockCalls| data@ != call_encoding(c) by {
                        lemma_encoding_shape(c);
                        if data@ == call_encoding(c) {
                            assert(data@[0] == selector_of(c)[0] && data@[1] == selector_of(c)[1]
                                && data@[2] == selector_of(c)[2] && data@[3] == selector_of(c)[3]);
                        }
                    }
                }
                return Err(AbiError::InvalidData);
            }
            let spender = match read_address_word(data, 4) {
                Some(a) => a,
                None => {
                    proof {
                        assert forall|c: ERC20MockCalls| data@ != call_encoding(c) by {
                            lemma_encoding_shape(c);
                            if data@ == call_encoding(c) {
                                assert(data@[0] == selector_of(c)[0] && data@[1] == selector_of(c)[1]
                                    && data@[2] == selector_of(c)[2] && data@[3] == selector_of(c)[3]);
                                match c {
                                    ERC20MockCalls::DecreaseAllowance(x) => {
                                        assert(data@.subrange(4, 36) =~= address_word(x.spender));
                                    },
                                    _ => {},
                                }
                            }
                        }
                    }
                    return Err(AbiError::InvalidData);
                },
            };
            let subtracted_value = read_u256_word(data, 36);
            let call = ERC20MockCalls::DecreaseAllowance((DecreaseAllowanceCall { spender, subtracted_value }));
            proof {
                lemma_encoding_shape(call);
                assert(data@ =~= data@.subrange(0, 4) + data@.subrange(4, 36) + data@.subrange(36, 68));
                assert(data@.subrange(0, 4) =~= selector_of(call));
                assert(data@ =~= call_encoding(call));
            }
            return Ok(call);
        }
        if s0 == 0x39 && s1 == 0x50 && s2 == 0x93 && s3 == 0x51 {
            if n != 68 {
                proof {
                    assert forall|c: ERC20MockCalls| data@ != call_encoding(c) by {
                        lemma_encoding_shape(c);
                        if data@ == call_encoding(c) {
                            assert(data@[0] == selector_of(c)[0] && data@[1] == selector_of(c)[1]
                                && data@[2] == selector_of(c)[2] && data@[3] == selector_of(c)[3]);
                        }
                    }
                }
                return Err(AbiError::InvalidData);
            }
            let spender = match read_address_word(data, 4) {
                Some(a) => a,
                None => {
                    proof {
                        assert forall|c: ERC20MockCalls| data@ != call_encoding(c) by {
                            lemma_encoding_shape(c);
                            if data@ == call_encoding(c) {
                                assert(data@[0] == selector_of(c)[0] && data@[1] == selector_of(c)[1]
                                    && data@[2] == selector_of(c)[2] && data@[3] == selector_of(c)[3]);
                                match c {
                                    ERC20MockCalls::IncreaseAllowance(x) => {
                                        assert(data@.subrange(4, 36) =~= address_word(x.spender));
                                    },
                                    _ => {},
                                }
                            }
                        }
                    }
                    return Err(AbiError::InvalidData);
                },
            };
            let added_value = read_u256_word(data, 36);
            let call = ERC20MockCalls::IncreaseAllowance((IncreaseAllowanceCall { spender, added_value }));
            proof {
                lemma_encoding_shape(call);
                assert(data@ =~= data@.subrange(0, 4) + data@.subrange(4, 36) + data@.subrange(36, 68));
                assert(data@.subrange(0, 4) =~= selector_of(call));
                assert(data@ =~= call_encoding(call));
            }
            return Ok(call);
        }
        if s0 == 0x40 && s1 == 0xc1 && s2 == 0x0f && s3 == 0x19 {
            if n != 68 {
                proof {
                    assert forall|c: ERC20MockCalls| data@ != call_encoding(c) by {
                        lemma_encoding_shape(c);
                        if data@ == call_encoding(c) {
                            assert(data@[0] == selector_of(c)[0] && data@[1] == selector_of(c)[1]
                                && data@[2] == selector_of(c)[2] && data@[3] == selector_of(c)[3]);
                        }
                    }
                }
                return Err(AbiError::InvalidData);
            }
            let to = match read_address_word(data, 4) {
                Some(a) => a,
                None => {
                    proof {
                        assert forall|c: ERC20MockCalls| data@ != call_encoding(c) by {
                            lemma_encoding_shape(c);
                            if data@ == call_encoding(c) {
                                assert(data@[0] == selector_of(c)[0] && data@[1] == selector_of(c)[1]
                                    && data@[2] == selector_of(c)[2] && data@[3] == selector_of(c)[3]);
                                match c {
                                    ERC20MockCalls::Mint(x) => {
                                        assert(data@.subrange(4, 36) =~= address_word(x.to));
                                    },
                                    _ => {},
                                }
                            }
                        }
                    }
                    return Err(AbiError::InvalidData);
                },
            };
            let amount = read_u256_word(data, 36);
            let call = ERC20MockCalls::Mint((MintCall { to, amount }));
            proof {
                lemma_encoding_shape(call);
                assert(data@ =~= data@.subrange(0, 4) + data@.subrange(4, 36) + data@.subrange(36, 68));
                assert(data@.subrange(0, 4) =~= selector_of(call));
                assert(data@ =~= call_encoding(call));
            }
            return Ok(call);
        }
        if s0 == 0x06 && s1 == 0xfd && s2 == 0xde && s3 == 0x03 {
            if n != 4 {
                proof {
                    assert forall|c: ERC20MockCalls| data@ != call_encoding(c) by {
                        lemma_encoding_shape(c);
                        if data@ == call_encoding(c) {
                            assert(data@[0] == selector_of(c)[0] && data@[1] == selector_of(c)[1]
                                && data@[2] == selector_of(c)[2] && data@[3] == selector_of(c)[3]);
                        }
                    }
                }
                return Err(AbiError::InvalidData);
            }
            let call = ERC20MockCalls::Name((NameCall));
            proof {
                lemma_encoding_shape(call);
                assert(data@ =~= data@.subrange(0, 4));
                assert(data@.subrange(0, 4) =~= selector_of(call));
                assert(data@ =~= call_encoding(call));
            }
            return Ok(call);
        }
        if s0 == 0x95 && s1 == 0xd8 && s2 == 0x9b && s3 == 0x41 {
            if n != 4 {
                proof {
                    assert forall|c: ERC20MockCalls| data@ != call_encoding(c) by {
                        lemma_encoding_shape(c);
                        if data@ == call_encoding(c) {
                            assert(data@[0] == selector_of(c)[0] && data@[1] == selector_of(c)[1]
                                && data@[2] == selector_of(c)[2] && data@[3] == selector_of(c)[3]);
                        }
                    }
                }
                return Err(AbiError::InvalidData);
            }
            let call = ERC20MockCalls::Symbol((SymbolCall));
            proof {
                lemma_encoding_shape(call);
                assert(data@ =~= data@.subrange(0, 4));
                assert(data@.subrange(0, 4) =~= selector_of(call));
                assert(data@ =~= call_encoding(call));
            }
            return Ok(call);
        }
        if s0 == 0x18 && s1 == 0x16 && s2 == 0x0d && s3 == 0xdd {
            if n != 4 {
                proof {
                    assert forall|c: ERC20MockCalls| data@ != call_encoding(c) by {
                        lemma_encoding_shape(c);
                        if data@ == call_encoding(c) {
                            assert(data@[0] == selector_of(c)[0] && data@[1] == selector_of(c)[1]
                                && data@[2] == selector_of(c)[2] && data@[3] == selector_of(c)[3]);
                        }
                    }
                }
                return Err(AbiError::InvalidData);
            }
            let call = ERC20MockCalls::TotalSupply((TotalSupplyCall));
            proof {
                lemma_encoding_shape(call);
                assert(data@ =~= data@.subrange(0, 4));
                assert(data@.subrange(0, 4) =~= selector_of(call));
                assert(data@ =~= call_encoding(call));
            }
            return Ok(call);
        }
        if s0 == 0xa9 && s1 == 0x05 && s2 == 0x9c && s3 == 0xbb {
            if n != 68 {
                proof {
                    assert forall|c: ERC20MockCalls| data@ != call_encoding(c) by {
                        lemma_encoding_shape(c);
                        if data@ == call_encoding(c) {
                            assert(data@[0] == selector_of(c)[0] && data@[1] == selector_of(c)[1]
                                && data@[2] == selector_of(c)[2] && data@[3] == selector_of(c)[3]);
                        }
                    }
                }
                return Err(AbiError::InvalidData);
            }
            let recipient = match read_address_word(data, 4) {
                Some(a) => a,
                None => {
                    proof {
                        assert forall|c: ERC20MockCalls| data@ != call_encoding(c) by {
                            lemma_encoding_shape(c);
                            if data@ == call_encoding(c) {
                                assert(data@[0] == selector_of(c)[0] && data@[1] == selector_of(c)[1]
                                    && data@[2] == selector_of(c)[2] && data@[3] == selector_of(c)[3]);
                                match c {
                                    ERC20MockCalls::Transfer(x) => {
                                        assert(data@.subrange(4, 36) =~= address_word(x.recipient));
                                    },
                                    _ => {},
                                }
                            }
                        }
                    }
                    return Err(AbiError::InvalidData);
                },
            };
            let amount = read_u256_word(data, 36);
            let call = ERC20MockCalls::Transfer((TransferCall { recipient, amount }));
            proof {
                lemma_encoding_shape(call);
                assert(data@ =~= data@.subrange(0, 4) + data@.subrange(4, 36) + data@.subrange(36, 68));
                assert(data@.subrange(0, 4) =~= selector_of(call));
                assert(data@ =~= call_encoding(call));
            }
            return Ok(call);
        }
        if s0 == 0x23 && s1 == 0xb8 && s2 == 0x72 && s3 == 0xdd {
            if n != 100 {
                proof {
                    assert forall|c: ERC20MockCalls| data@ != call_encoding(c) by {
                        lemma_encoding_shape(c);
                        if data@ == call_encoding(c) {
                            assert(data@[0] == selector_of(c)[0] && data@[1] == selector_of(c)[1]
                                && data@[2] == selector_of(c)[2] && data@[3] == selector_of(c)[3]);
                        }
                    }
                }
                return Err(AbiError::InvalidData);
            }
            let sender = match read_address_word(data, 4) {
                Some(a) => a,
                None => {
                    proof {
                        assert forall|c: ERC20MockCalls| data@ != call_encoding(c) by {
                            lemma_encoding_shape(c);
                            if data@ == call_encoding(c) {
                                assert(data@[0] == selector_of(c)[0] && data@[1] == selector_of(c)[1]
                                    && data@[2] == selector_of(c)[2] && data@[3] == selector_of(c)[3]);
                                match c {
                                    ERC20MockCalls::TransferFrom(x) => {
                                        assert(data@.subrange(4, 36) =~= address_word(x.sender));
                                    },
                                    _ => {},
                                }
                            }
                        }
                    }
                    return Err(AbiError::InvalidData);
                },
            };
            let recipient = match read_address_word(data, 36) {
                Some(a) => a,
                None => {
                    proof {
                        assert forall|c: ERC20MockCalls| data@ != call_encoding(c) by {
                            lemma_encoding_shape(c);
                            if data@ == call_encoding(c) {
                                assert(data@[0] == selector_of(c)[0] && data@[1] == selector_of(c)[1]
                                    && data@[2] == selector_of(c)[2] && data@[3] == selector_of(c)[3]);
                                match c {
                                    ERC20MockCalls::TransferFrom(x) => {
                                        assert(data@.subrange(36, 68) =~= address_word(x.recipient));
                                    },
                                    _ => {},
                                }
                            }
                        }
                    }
                    return Err(AbiError::InvalidData);
                },
            };
            let amount = read_u256_word(data, 68);
            let call = ERC20MockCalls::TransferFrom((TransferFromCall { sender, recipient, amount }));
            proof {
                lemma_encoding_shape(call);
                assert(data@ =~= data@.subrange(0, 4) + data@.subrange(4, 36) + data@.subrange(36, 68) + data@.subrange(68, 100));
                assert(data@.subrange(0, 4) =~= selector_of(call));
                assert(data@ =~= call_encoding(call));
            }
            return Ok(call);
        }
        proof {
            assert forall|c: ERC20MockCalls| data@ != call_encoding(c) by {
                lemma_encoding_shape(c);
                if data@ == call_encoding(c) {
                    assert(data@[0] == selector_of(c)[0] && data@[1] == selector_of(c)[1] && data@[2]
                        == selector_of(c)[2] && data@[3] == selector_of(c)[3]);
                }
            }
        }
        Err(AbiError::InvalidData)
    }
}
/// Output values of the `allowance` function.
#[derive(Debug, Clone, Copy, PartialEq, Eq, Hash, Structural)]
pub struct AllowanceReturn(pub U256);

/// Output values of the `approve` function.
#[derive(Debug, Clone, Copy, PartialEq, Eq, Hash, Structural)]
pub struct ApproveReturn(pub bool);

/// Output values of the `balanceOf` function.
#[derive(Debug, Clone, Copy, PartialEq, Eq, Hash, Structural)]
pub struct BalanceOfReturn(pub U256);

/// Output values of the `decimals` function.
#[derive(Debug, Clone, Copy, PartialEq, Eq, Hash, Structural)]
pub struct DecimalsReturn(pub u8);

/// Output values of the `decreaseAllowance` function.
#[derive(Debug, Clone, Copy, PartialEq, Eq, Hash, Structural)]
pub struct DecreaseAllowanceReturn(pub bool);

/// Output values of the `increaseAllowance` function.
#[derive(Debug, Clone, Copy, PartialEq, Eq, Hash, Structural)]
pub struct IncreaseAllowanceReturn(pub bool);

/// Output values of the `name` function.
#[derive(Debug, Clone)]
pub struct NameReturn(pub String);

/// Output values of the `symbol` function.
#[derive(Debug, Clone)]
pub struct SymbolReturn(pub String);

/// Output values of the `totalSupply` function.
#[derive(Debug, Clone, Copy, PartialEq, Eq, Hash, Structural)]
pub struct TotalSupplyReturn(pub U256);

/// Output values of the `transfer` function.
#[derive(Debug, Clone, Copy, PartialEq, Eq, Hash, Structural)]
pub struct TransferReturn(pub bool);

/// Output values of the `transferFrom` function.
#[derive(Debug, Clone, Copy, PartialEq, Eq, Hash, Structural)]
pub struct TransferFromReturn(pub bool);

/// The contract's `Approval(address,address,uint256)` event.
#[derive(Debug, Clone, Copy, PartialEq, Eq, Hash, Structural)]
pub struct ApprovalFilter {
    pub owner: Address,
    pub spender: Address,
    pub value: U256,
}

/// The contract's `Transfer(address,address,uint256)` event.
#[derive(Debug, Clone, Copy, PartialEq, Eq, Hash, Structural)]
pub struct TransferFilter {
    pub from: Address,
    pub to: Address,
    pub value: U256,
}

/// Container for every event of the contract.
#[derive(Debug, Clone, Copy, PartialEq, Eq, Hash, Structural)]
pub enum ERC20MockEvents {
    ApprovalFilter(ApprovalFilter),
    TransferFilter(TransferFilter),
}

/// Which events a log subscription asks for.
#[derive(Debug, Clone, Copy, PartialEq, Eq, Structural)]
pub enum EventKind {
    Approval,
    Transfer,
    Any,
}

/// A log subscription scoped to one contract: its address and the events
/// asked for.
#[derive(Debug, Clone, Copy, PartialEq, Eq, Structural)]
pub struct EventFilter {
    pub address: Address,
    pub kind: EventKind,
}

/// A read-only call bound to a deployed contract: the contract to call
/// and the calldata to send.
#[derive(Debug, Clone, PartialEq, Eq)]
pub struct ContractCall {
    pub to: Address,
    pub data: Vec<u8>,
}

/// A deployed instance of the contract, known by its address: one method
/// per contract function builds the bound call carrying the canonical
/// calldata.
#[derive(Debug, Clone, Copy, PartialEq, Eq, Structural)]
pub struct ERC20Mock {
    pub address: Address,
}

impl ERC20Mock {
    /// Binds a contract instance at `address`.
    pub fn new(address: Address) -> (r: ERC20Mock)
        ensures
            r.address == address,
    {
        ERC20Mock { address }
    }

    /// Builds the contract's `allowance` call.
    pub fn allowance(&self, owner: Address, spender: Address) -> (r: ContractCall)
        ensures
            r.to == self.address,
            r.data@ == call_encoding(ERC20MockCalls::Allowance((AllowanceCall { owner, spender }))),
    {
        let call = ERC20MockCalls::Allowance((AllowanceCall { owner, spender }));
        ContractCall { to: self.address, data: call.encode() }
    }

    /// Builds the contract's `approve` call.
    pub fn approve(&self, spender: Address, amount: U256) -> (r: ContractCall)
        ensures
            r.to == self.address,
            r.data@ == call_encoding(ERC20MockCalls::Approve((ApproveCall { spender, amount }))),
    {
        let call = ERC20MockCalls::Approve((ApproveCall { spender, amount }));
        ContractCall { to: self.address, data: call.encode() }
    }

    /// Builds the contract's `balanceOf` call.
    pub fn balance_of(&self, account: Address) -> (r: ContractCall)
        ensures
            r.to == self.address,
            r.data@ == call_encoding(ERC20MockCalls::BalanceOf((BalanceOfCall { account }))),
    {
        let call = ERC20MockCalls::BalanceOf((BalanceOfCall { account }));
        ContractCall { to: self.address, data: call.encode() }
    }

    /// Builds the contract's `burn` call.
    pub fn burn(&self, to: Address, amount: U256) -> (r: ContractCall)
        ensures
            r.to == self.address,
            r.data@ == call_encoding(ERC20MockCalls::Burn((BurnCall { to, amount }))),
    {
        let call = ERC20MockCalls::Burn((BurnCall { to, amount }));
        ContractCall { to: self.address, data: call.encode() }
    }

    /// Builds the contract's `decimals` call.
    pub fn decimals(&self) -> (r: ContractCall)
        ensures
            r.to == self.address,
            r.data@ == call_encoding(ERC20MockCalls::Decimals((DecimalsCall))),
    {
        let call = ERC20MockCalls::Decimals((DecimalsCall));
        ContractCall { to: self.address, data: call.encode() }
    }

    /// Builds the contract's `decreaseAllowance` call.
    pub fn decrease_allowance(&self, spender: Address, subtracted_value: U256) -> (r: ContractCall)
        ensures
            r.to == self.address,
            r.data@ == call_encoding(ERC20MockCalls::DecreaseAllowance((DecreaseAllowanceCall { spender, subtracted_value }))),
    {
        let call = ERC20MockCalls::DecreaseAllowance((DecreaseAllowanceCall { spender, subtracted_value }));
        ContractCall { to: self.address, data: call.encode() }
    }

    /// Builds the contract's `increaseAllowance` call.
    pub fn increase_allowance(&self, spender: Address, added_value: U256) -> (r: ContractCall)
        ensures
            r.to == self.address,
            r.data@ == call_encoding(ERC20MockCalls::IncreaseAllowance((IncreaseAllowanceCall { spender, added_value }))),
    {
        let call = ERC20MockCalls::IncreaseAllowance((IncreaseAllowanceCall { spender, added_value }));
        ContractCall { to: self.address, data: call.encode() }
    }

    /// Builds the contract's `mint` call.
    pub fn mint(&self, to: Address, amount: U256) -> (r: ContractCall)
        ensures
            r.to == self.address,
            r.data@ == call_encoding(ERC20MockCalls::Mint((MintCall { to, amount }))),
    {
        let call = ERC20MockCalls::Mint((MintCall { to, amount }));
        ContractCall { to: self.address, data: call.encode() }
    }

    /// Builds the contract's `name` call.
    pub fn name(&self) -> (r: ContractCall)
        ensures
            r.to == self.address,
            r.data@ == call_encoding(ERC20MockCalls::Name((NameCall))),
    {
        let call = ERC20MockCalls::Name((NameCall));
        ContractCall { to: self.address, data: call.encode() }
    }

    /// Builds the contract's `symbol` call.
    pub fn symbol(&self) -> (r: ContractCall)
        ensures
            r.to == self.address,
            r.data@ == call_encoding(ERC20MockCalls::Symbol((SymbolCall))),
    {
        let call = ERC20MockCalls::Symbol((SymbolCall));
        ContractCall { to: self.address, data: call.encode() }
    }

    /// Builds the contract's `totalSupply` call.
    pub fn total_supply(&self) -> (r: ContractCall)
        ensures
            r.to == self.address,
            r.data@ == call_encoding(ERC20MockCalls::TotalSupply((TotalSupplyCall))),
    {
        let call = ERC20MockCalls::TotalSupply((TotalSupplyCall));
        ContractCall { to: self.address, data: call.encode() }
    }

    /// Builds the contract's `transfer` call.
    pub fn transfer(&self, recipient: Address, amount: U256) -> (r: ContractCall)
        ensures
            r.to == self.address,
            r.data@ == call_encoding(ERC20MockCalls::Transfer((TransferCall { recipient, amount }))),
    {
        let call = ERC20MockCalls::Transfer((TransferCall { recipient, amount }));
        ContractCall { to: self.address, data: call.encode() }
    }

    /// Builds the contract's `transferFrom` call.
    pub fn transfer_from(&self, sender: Address, recipient: Address, amount: U256) -> (r: ContractCall)
        ensures
            r.to == self.address,
            r.data@ == call_encoding(ERC20MockCalls::TransferFrom((TransferFromCall { sender, recipient, amount }))),
    {
        let call = ERC20MockCalls::TransferFrom((TransferFromCall { sender, recipient, amount }));
        ContractCall { to: self.address, data: call.encode() }
    }

    /// A subscription to the contract's `Approval` events.
    pub fn approval_filter(&self) -> (r: EventFilter)
        ensures
            r.address == self.address,
            r.kind == EventKind::Approval,
    {
        EventFilter { address: self.address, kind: EventKind::Approval }
    }

    /// A subscription to the contract's `Transfer` events.
    pub fn transfer_filter(&self) -> (r: EventFilter)
        ensures
            r.address == self.address,
            r.kind == EventKind::Transfer,
    {
        EventFilter { address: self.address, kind: EventKind::Transfer }
    }

    /// A subscription to every event of the contract.
    pub fn events(&self) -> (r: EventFilter)
        ensures
            r.address == self.address,
            r.kind == EventKind::Any,
    {
        EventFilter { address: self.address, kind: EventKind::Any }
    }
}


/// A returned 256-bit integer is one 32-byte word.
pub open spec fn u256_return_encoding(v: U256) -> Seq<u8> {
    u256_word(v)
}

/// A returned boolean is one canonical 32-byte word.
pub open spec fn bool_return_encoding(b: bool) -> Seq<u8> {
    bool_word(b)
}

/// A returned 8-bit integer is one canonical 32-byte word.
pub open spec fn u8_return_encoding(x: u8) -> Seq<u8> {
    u8_word(x)
}

impl AllowanceReturn {
    /// Decodes the `allowance` function's return data: exactly one 32-byte
    /// word.
    pub fn decode(data: &Vec<u8>) -> (r: Result<AllowanceReturn, AbiError>)
        ensures
            r matches Ok(v) ==> data@ == u256_return_encoding(v.0),
            r is Err ==> forall|v: U256| data@ != u256_return_encoding(v),
    {
        if data.len() != 32 {
            return Err(AbiError::InvalidData);
        }
        let v = read_u256_word(data, 0);
        proof {
            assert(data@ =~= data@.subrange(0, 32));
        }
        Ok(AllowanceReturn(v))
    }
}

impl BalanceOfReturn {
    /// Decodes the `balanceOf` function's return data: exactly one 32-byte
    /// word.
    pub fn decode(data: &Vec<u8>) -> (r: Result<BalanceOfReturn, AbiError>)
        ensures
            r matches Ok(v) ==> data@ == u256_return_encoding(v.0),
            r is Err ==> forall|v: U256| data@ != u256_return_encoding(v),
    {
        if data.len() != 32 {
            return Err(AbiError::InvalidData);
        }
        let v = read_u256_word(data, 0);
        proof {
            assert(data@ =~= data@.subrange(0, 32));
        }
        Ok(BalanceOfReturn(v))
    }
}

impl TotalSupplyReturn {
    /// Decodes the `totalSupply` function's return data: exactly one 32-byte
    /// word.
    pub fn decode(data: &Vec<u8>) -> (r: Result<TotalSupplyReturn, AbiError>)
        ensures
            r matches Ok(v) ==> data@ == u256_return_encoding(v.0),
            r is Err ==> forall|v: U256| data@ != u256_return_encoding(v),
    {
        if data.len() != 32 {
            return Err(AbiError::InvalidData);
        }
        let v = read_u256_word(data, 0);
        proof {
            assert(data@ =~= data@.subrange(0, 32));
        }
        Ok(TotalSupplyReturn(v))
    }
}

impl ApproveReturn {
    /// Decodes the `approve` function's return data: one canonical boolean
    /// word.
    pub fn decode(data: &Vec<u8>) -> (r: Result<ApproveReturn, AbiError>)
        ensures
            r matches Ok(v) ==> data@ == bool_return_encoding(v.0),
            r is Err ==> forall|b: bool| data@ != bool_return_encoding(b),
    {
        if data.len() != 32 {
            return Err(AbiError::InvalidData);
        }
        match read_bool_word(data, 0) {
            Some(b) => {
                proof {
                    assert(data@ =~= data@.subrange(0, 32));
                }
                Ok(ApproveReturn(b))
            },
            None => {
                proof {
                    assert forall|b: bool| data@ != bool_return_encoding(b) by {
                        if data@ == bool_return_encoding(b) {
                            assert(data@.subrange(0, 32) =~= bool_word(b));
                        }
                    }
                }
                Err(AbiError::InvalidData)
            },
        }
    }
}

impl DecreaseAllowanceReturn {
    /// Decodes the `decreaseAllowance` function's return data: one canonical boolean
    /// word.
    pub fn decode(data: &Vec<u8>) -> (r: Result<DecreaseAllowanceReturn, AbiError>)
        ensures
            r matches Ok(v) ==> data@ == bool_return_encoding(v.0),
            r is Err ==> forall|b: bool| data@ != bool_return_encoding(b),
    {
        if data.len() != 32 {
            return Err(AbiError::InvalidData);
        }
        match read_bool_word(data, 0) {
            Some(b) => {
                proof {
                    assert(data@ =~= data@.subrange(0, 32));
                }
                Ok(DecreaseAllowanceReturn(b))
            },
            None => {
                proof {
                    assert forall|b: bool| data@ != bool_return_encoding(b) by {
                        if data@ == bool_return_encoding(b) {
                            assert(data@.subrange(0, 32) =~= bool_word(b));
                        }
                    }
                }
                Err(AbiError::InvalidData)
            },
        }
    }
}

impl IncreaseAllowanceReturn {
    /// Decodes the `increaseAllowance` function's return data: one canonical boolean
    /// word.
    pub fn decode(data: &Vec<u8>) -> (r: Result<IncreaseAllowanceReturn, AbiError>)
        ensures
            r matches Ok(v) ==> data@ == bool_return_encoding(v.0),
            r is Err ==> forall|b: bool| data@ != bool_return_encoding(b),
    {
        if data.len() != 32 {
            return Err(AbiError::InvalidData);
        }
        match read_bool_word(data, 0) {
            Some(b) => {
                proof {
                    assert(data@ =~= data@.subrange(0, 32));
                }
                Ok(IncreaseAllowanceReturn(b))
            },
            None => {
                proof {
                    assert forall|b: bool| data@ != bool_return_encoding(b) by {
                        if data@ == bool_return_encoding(b) {
                            assert(data@.subrange(0, 32) =~= bool_word(b));
                        }
                    }
                }
                Err(AbiError::InvalidData)
            },
        }
    }
}

impl TransferReturn {
    /// Decodes the `transfer` function's return data: one canonical boolean
    /// word.
    pub fn decode(data: &Vec<u8>) -> (r: Result<TransferReturn, AbiError>)
        ensures
            r matches Ok(v) ==> data@ == bool_return_encoding(v.0),
            r is Err ==> forall|b: bool| data@ != bool_return_encoding(b),
    {
        if data.len() != 32 {
            return Err(AbiError::InvalidData);
        }
        match read_bool_word(data, 0) {
            Some(b) => {
                proof {
                    assert(data@ =~= data@.subrange(0, 32));
                }
                Ok(TransferReturn(b))
            },
            None => {
                proof {
                    assert forall|b: bool| data@ != bool_return_encoding(b) by {
                        if data@ == bool_return_encoding(b) {
                            assert(data@.subrange(0, 32) =~= bool_word(b));
                        }
                    }
                }
                Err(AbiError::InvalidData)
            },
        }
    }
}

impl TransferFromReturn {
    /// Decodes the `transferFrom` function's return data: one canonical boolean
    /// word.
    pub fn decode(data: &Vec<u8>) -> (r: Result<TransferFromReturn, AbiError>)
        ensures
            r matches Ok(v) ==> data@ == bool_return_encoding(v.0),
            r is Err ==> forall|b: bool| data@ != bool_return_encoding(b),
    {
        if data.len() != 32 {
            return Err(AbiError::InvalidData);
        }
        match read_bool_word(data, 0) {
            Some(b) => {
                proof {
                    assert(data@ =~= data@.subrange(0, 32));
                }
                Ok(TransferFromReturn(b))
            },
            None => {
                proof {
                    assert forall|b: bool| data@ != bool_return_encoding(b) by {
                        if data@ == bool_return_encoding(b) {
                            assert(data@.subrange(0, 32) =~= bool_word(b));
                        }
                    }
                }
                Err(AbiError::InvalidData)
            },
        }
    }
}

impl DecimalsReturn {
    /// Decodes the `decimals` function's return data: one canonical
    /// 8-bit word.
    pub fn decode(data: &Vec<u8>) -> (r: Result<DecimalsReturn, AbiError>)
        ensures
            r matches Ok(v) ==> data@ == u8_return_encoding(v.0),
            r is Err ==> forall|x: u8| data@ != u8_return_encoding(x),
    {
        if data.len() != 32 {
            return Err(AbiError::InvalidData);
        }
        match read_u8_word(data, 0) {
            Some(x) => {
                proof {
                    assert(data@ =~= data@.subrange(0, 32));
                }
                Ok(DecimalsReturn(x))
            },
            None => {
                proof {
                    assert forall|x: u8| data@ != u8_return_encoding(x) by {
                        if data@ == u8_return_encoding(x) {
                            assert(data@.subrange(0, 32) =~= u8_word(x));
                        }
                    }
                }
                Err(AbiError::InvalidData)
            },
        }
    }
}

} // verus!
