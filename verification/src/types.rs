//! Leaf types of the WebAssembly abstract syntax: value, reference and
//! numeric types, limits, table/memory/global shapes, indices and the small
//! fixed-shape records.
//!
//! Every type here carries its canonical byte encoding in `spec_enc` and is
//! decoded by exactly that encoding.

use vstd::prelude::*;

use crate::codec::lemma_concat_cancel;
use crate::codec::Decode;
use crate::codec::DecodeError;
use crate::codec::DecodeResult;
use crate::codec::Encode;

verus! {

/// `ValType` non-terminal of the binary grammar.
#[derive(Debug, PartialEq)]
pub enum ValType {
    I32,
    I64,
    F32,
    F64,
    V128,
    FuncRef,
    ExternRef,
}

impl DeepView for ValType {
    type V = ValType;

    open spec fn deep_view(&self) -> ValType {
        *self
    }
}

impl Encode for ValType {
    open spec fn spec_enc(v: ValType) -> Seq<u8> {
        match v {
            ValType::I32 => seq![127u8],
            ValType::I64 => seq![126u8],
            ValType::F32 => seq![125u8],
            ValType::F64 => seq![124u8],
            ValType::V128 => seq![123u8],
            ValType::FuncRef => seq![112u8],
            ValType::ExternRef => seq![111u8],
        }
    }

    open spec fn spec_wf(v: ValType) -> bool {
        match v {
            ValType::I32 => true,
            ValType::I64 => true,
            ValType::F32 => true,
            ValType::F64 => true,
            ValType::V128 => true,
            ValType::FuncRef => true,
            ValType::ExternRef => true,
        }
    }

    #[verifier::rlimit(100)]
    fn encode(&self, buffer: &mut Vec<u8>) {
        match self {
            ValType::I32 => {
                buffer.push(127u8);
                assert(buffer@ =~= old(buffer)@ + seq![127u8]);
            }
            ValType::I64 => {
                buffer.push(126u8);
                assert(buffer@ =~= old(buffer)@ + seq![126u8]);
            }
            ValType::F32 => {
                buffer.push(125u8);
                assert(buffer@ =~= old(buffer)@ + seq![125u8]);
            }
            ValType::F64 => {
                buffer.push(124u8);
                assert(buffer@ =~= old(buffer)@ + seq![124u8]);
            }
            ValType::V128 => {
                buffer.push(123u8);
                assert(buffer@ =~= old(buffer)@ + seq![123u8]);
            }
            ValType::FuncRef => {
                buffer.push(112u8);
                assert(buffer@ =~= old(buffer)@ + seq![112u8]);
            }
            ValType::ExternRef => {
                buffer.push(111u8);
                assert(buffer@ =~= old(buffer)@ + seq![111u8]);
            }
        }
        assert(buffer@ =~= old(buffer)@ + Self::spec_enc(self.deep_view()));
    }
}

/// First wire byte of each `ValType` alternative: the discriminator.
pub open spec fn val_type_op(v: ValType) -> u8 {
    match v {
        ValType::I32 => 127u8,
        ValType::I64 => 126u8,
        ValType::F32 => 125u8,
        ValType::F64 => 124u8,
        ValType::V128 => 123u8,
        ValType::FuncRef => 112u8,
        ValType::ExternRef => 111u8,
    }
}

/// Every `ValType` encoding starts with its discriminator byte.
pub proof fn lemma_val_type_head(v: ValType)
    ensures
        <ValType as Encode>::spec_enc(v).len() >= 1,
        <ValType as Encode>::spec_enc(v)[0] == val_type_op(v),
{
    match v {
        ValType::I32 => {
        },
        ValType::I64 => {
        },
        ValType::F32 => {
        },
        ValType::F64 => {
        },
        ValType::V128 => {
        },
        ValType::FuncRef => {
        },
        ValType::ExternRef => {
        },
    }
}

impl Decode for ValType {
    #[verifier::rlimit(100)]
    proof fn lemma_plain(s: Seq<u8>) {
        assert forall|v: ValType| Self::spec_enc(v).len() >= 1 by {
            lemma_val_type_head(v);
        }
        if Self::dec_ok(Seq::<u8>::empty()) {
            let (v, e) = choose|v: ValType, e: Seq<u8>|
                Self::spec_wf(v) && Seq::<u8>::empty() == Self::spec_enc(v) + e
                    && Self::tail_stop(e);
            assert(Self::spec_enc(v).len() >= 1);
            assert(false);
        }
    }

    #[verifier::rlimit(100)]
    proof fn lemma_unamb(v1: ValType, v2: ValType, e1: Seq<u8>, e2: Seq<u8>) {
        lemma_val_type_head(v1);
        lemma_val_type_head(v2);
        assert((Self::spec_enc(v1) + e1)[0] == Self::spec_enc(v1)[0]);
        assert((Self::spec_enc(v2) + e2)[0] == Self::spec_enc(v2)[0]);
        assert(val_type_op(v1) == val_type_op(v2));
        match v1 {
            ValType::I32 => {
                match v2 {
                    ValType::I32 => {
                        assert(Self::spec_enc(v1) + e1 =~= seq![127u8] + (e1));
                        assert(Self::spec_enc(v2) + e2 =~= seq![127u8] + (e2));
                        lemma_concat_cancel(seq![127u8], e1, seq![127u8], e2);
                        assert(e1 == e2);
                        assert(v1 == v2);
                    },
                    _ => {
                        assert(false);
                    },
                }
            },
            ValType::I64 => {
                match v2 {
                    ValType::I64 => {
                        assert(Self::spec_enc(v1) + e1 =~= seq![126u8] + (e1));
                        assert(Self::spec_enc(v2) + e2 =~= seq![126u8] + (e2));
                        lemma_concat_cancel(seq![126u8], e1, seq![126u8], e2);
                        assert(e1 == e2);
                        assert(v1 == v2);
                    },
                    _ => {
                        assert(false);
                    },
                }
            },
            ValType::F32 => {
                match v2 {
                    ValType::F32 => {
                        assert(Self::spec_enc(v1) + e1 =~= seq![125u8] + (e1));
                        assert(Self::spec_enc(v2) + e2 =~= seq![125u8] + (e2));
                        lemma_concat_cancel(seq![125u8], e1, seq![125u8], e2);
                        assert(e1 == e2);
                        assert(v1 == v2);
                    },
                    _ => {
                        assert(false);
                    },
                }
            },
            ValType::F64 => {
                match v2 {
                    ValType::F64 => {
                        assert(Self::spec_enc(v1) + e1 =~= seq![124u8] + (e1));
                        assert(Self::spec_enc(v2) + e2 =~= seq![124u8] + (e2));
                        lemma_concat_cancel(seq![124u8], e1, seq![124u8], e2);
                        assert(e1 == e2);
                        assert(v1 == v2);
                    },
                    _ => {
                        assert(false);
                    },
                }
            },
            ValType::V128 => {
                match v2 {
                    ValType::V128 => {
                        assert(Self::spec_enc(v1) + e1 =~= seq![123u8] + (e1));
                        assert(Self::spec_enc(v2) + e2 =~= seq![123u8] + (e2));
                        lemma_concat_cancel(seq![123u8], e1, seq![123u8], e2);
                        assert(e1 == e2);
                        assert(v1 == v2);
                    },
                    _ => {
                        assert(false);
                    },
                }
            },
            ValType::FuncRef => {
                match v2 {
                    ValType::FuncRef => {
                        assert(Self::spec_enc(v1) + e1 =~= seq![112u8] + (e1));
                        assert(Self::spec_enc(v2) + e2 =~= seq![112u8] + (e2));
                        lemma_concat_cancel(seq![112u8], e1, seq![112u8], e2);
                        assert(e1 == e2);
                        assert(v1 == v2);
                    },
                    _ => {
                        assert(false);
                    },
                }
            },
            ValType::ExternRef => {
                match v2 {
                    ValType::ExternRef => {
                        assert(Self::spec_enc(v1) + e1 =~= seq![111u8] + (e1));
                        assert(Self::spec_enc(v2) + e2 =~= seq![111u8] + (e2));
                        lemma_concat_cancel(seq![111u8], e1, seq![111u8], e2);
                        assert(e1 == e2);
                        assert(v1 == v2);
                    },
                    _ => {
                        assert(false);
                    },
                }
            },
        }
    }

    proof fn lemma_covers(v: Self::V, e: Seq<u8>) {
        assert(Self::spec_wf(v) && Self::spec_enc(v) + e == Self::spec_enc(v) + e
            && Self::tail_stop(e));
    }

    #[verifier::rlimit(100)]
    fn decode(buffer: &[u8]) -> (r: DecodeResult<Self>) {
        if buffer.len() == 0 {
            proof {
                if Self::complete() && Self::dec_ok(buffer@) {
                    let (w, e) = choose|w: ValType, e: Seq<u8>|
                        Self::spec_wf(w) && buffer@ == Self::spec_enc(w) + e
                            && Self::tail_stop(e);
                    lemma_val_type_head(w);
                    assert(false);
                }
            }
            return Err(DecodeError::Error);
        }
        let b0 = buffer[0];
        match b0 {
            127u8 => {
                let cur0 = buffer;
                let (lit0, cur1) = match <u8 as Decode>::decode(cur0) {
                    Ok(p) => p,
                    Err(_) => {
                        proof {
                            assert(cur0@.len() >= 1);
                            assert(false);
                        }
                        return Err(DecodeError::Error);
                    },
                };
                if lit0 != 127u8 {
                    proof {
                        assert(cur0@[0] == lit0);
                        assert(false);
                    }
                    return Err(DecodeError::Error);
                }
                assert(buffer@ =~= seq![127u8] + cur1@);
                let result = ValType::I32;
                proof {
                    assert(Self::spec_enc(result.deep_view()) =~= seq![127u8]);
                    assert(buffer@ =~= Self::spec_enc(result.deep_view()) + cur1@);
                    if Self::complete() {
                        assert(Self::dec_ok(buffer@)) by {
                            assert(Self::spec_wf(result.deep_view()) && buffer@
                                == Self::spec_enc(result.deep_view()) + cur1@
                                && Self::tail_stop(cur1@));
                        }
                    }
                }
                Ok((result, cur1))
            },
            126u8 => {
                let cur0 = buffer;
                let (lit0, cur1) = match <u8 as Decode>::decode(cur0) {
                    Ok(p) => p,
                    Err(_) => {
                        proof {
                            assert(cur0@.len() >= 1);
                            assert(false);
                        }
                        return Err(DecodeError::Error);
                    },
                };
                if lit0 != 126u8 {
                    proof {
                        assert(cur0@[0] == lit0);
                        assert(false);
                    }
                    return Err(DecodeError::Error);
                }
                assert(buffer@ =~= seq![126u8] + cur1@);
                let result = ValType::I64;
                proof {
                    assert(Self::spec_enc(result.deep_view()) =~= seq![126u8]);
                    assert(buffer@ =~= Self::spec_enc(result.deep_view()) + cur1@);
                    if Self::complete() {
                        assert(Self::dec_ok(buffer@)) by {
                            assert(Self::spec_wf(result.deep_view()) && buffer@
                                == Self::spec_enc(result.deep_view()) + cur1@
                                && Self::tail_stop(cur1@));
                        }
                    }
                }
                Ok((result, cur1))
            },
            125u8 => {
                let cur0 = buffer;
                let (lit0, cur1) = match <u8 as Decode>::decode(cur0) {
                    Ok(p) => p,
                    Err(_) => {
                        proof {
                            assert(cur0@.len() >= 1);
                            assert(false);
                        }
                        return Err(DecodeError::Error);
                    },
                };
                if lit0 != 125u8 {
                    proof {
                        assert(cur0@[0] == lit0);
                        assert(false);
                    }
                    return Err(DecodeError::Error);
                }
                assert(buffer@ =~= seq![125u8] + cur1@);
                let result = ValType::F32;
                proof {
                    assert(Self::spec_enc(result.deep_view()) =~= seq![125u8]);
                    assert(buffer@ =~= Self::spec_enc(result.deep_view()) + cur1@);
                    if Self::complete() {
                        assert(Self::dec_ok(buffer@)) by {
                            assert(Self::spec_wf(result.deep_view()) && buffer@
                                == Self::spec_enc(result.deep_view()) + cur1@
                                && Self::tail_stop(cur1@));
                        }
                    }
                }
                Ok((result, cur1))
            },
            124u8 => {
                let cur0 = buffer;
                let (lit0, cur1) = match <u8 as Decode>::decode(cur0) {
                    Ok(p) => p,
                    Err(_) => {
                        proof {
                            assert(cur0@.len() >= 1);
                            assert(false);
                        }
                        return Err(DecodeError::Error);
                    },
                };
                if lit0 != 124u8 {
                    proof {
                        assert(cur0@[0] == lit0);
                        assert(false);
                    }
                    return Err(DecodeError::Error);
                }
                assert(buffer@ =~= seq![124u8] + cur1@);
                let result = ValType::F64;
                proof {
                    assert(Self::spec_enc(result.deep_view()) =~= seq![124u8]);
                    assert(buffer@ =~= Self::spec_enc(result.deep_view()) + cur1@);
                    if Self::complete() {
                        assert(Self::dec_ok(buffer@)) by {
                            assert(Self::spec_wf(result.deep_view()) && buffer@
                                == Self::spec_enc(result.deep_view()) + cur1@
                                && Self::tail_stop(cur1@));
                        }
                    }
                }
                Ok((result, cur1))
            },
            123u8 => {
                let cur0 = buffer;
                let (lit0, cur1) = match <u8 as Decode>::decode(cur0) {
                    Ok(p) => p,
                    Err(_) => {
                        proof {
                            assert(cur0@.len() >= 1);
                            assert(false);
                        }
                        return Err(DecodeError::Error);
                    },
                };
                if lit0 != 123u8 {
                    proof {
                        assert(cur0@[0] == lit0);
                        assert(false);
                    }
                    return Err(DecodeError::Error);
                }
                assert(buffer@ =~= seq![123u8] + cur1@);
                let result = ValType::V128;
                proof {
                    assert(Self::spec_enc(result.deep_view()) =~= seq![123u8]);
                    assert(buffer@ =~= Self::spec_enc(result.deep_view()) + cur1@);
                    if Self::complete() {
                        assert(Self::dec_ok(buffer@)) by {
                            assert(Self::spec_wf(result.deep_view()) && buffer@
                                == Self::spec_enc(result.deep_view()) + cur1@
                                && Self::tail_stop(cur1@));
                        }
                    }
                }
                Ok((result, cur1))
            },
            112u8 => {
                let cur0 = buffer;
                let (lit0, cur1) = match <u8 as Decode>::decode(cur0) {
                    Ok(p) => p,
                    Err(_) => {
                        proof {
                            assert(cur0@.len() >= 1);
                            assert(false);
                        }
                        return Err(DecodeError::Error);
                    },
                };
                if lit0 != 112u8 {
                    proof {
                        assert(cur0@[0] == lit0);
                        assert(false);
                    }
                    return Err(DecodeError::Error);
                }
                assert(buffer@ =~= seq![112u8] + cur1@);
                let result = ValType::FuncRef;
                proof {
                    assert(Self::spec_enc(result.deep_view()) =~= seq![112u8]);
                    assert(buffer@ =~= Self::spec_enc(result.deep_view()) + cur1@);
                    if Self::complete() {
                        assert(Self::dec_ok(buffer@)) by {
                            assert(Self::spec_wf(result.deep_view()) && buffer@
                                == Self::spec_enc(result.deep_view()) + cur1@
                                && Self::tail_stop(cur1@));
                        }
                    }
                }
                Ok((result, cur1))
            },
            111u8 => {
                let cur0 = buffer;
                let (lit0, cur1) = match <u8 as Decode>::decode(cur0) {
                    Ok(p) => p,
                    Err(_) => {
                        proof {
                            assert(cur0@.len() >= 1);
                            assert(false);
                        }
                        return Err(DecodeError::Error);
                    },
                };
                if lit0 != 111u8 {
                    proof {
                        assert(cur0@[0] == lit0);
                        assert(false);
                    }
                    return Err(DecodeError::Error);
                }
                assert(buffer@ =~= seq![111u8] + cur1@);
                let result = ValType::ExternRef;
                proof {
                    assert(Self::spec_enc(result.deep_view()) =~= seq![111u8]);
                    assert(buffer@ =~= Self::spec_enc(result.deep_view()) + cur1@);
                    if Self::complete() {
                        assert(Self::dec_ok(buffer@)) by {
                            assert(Self::spec_wf(result.deep_view()) && buffer@
                                == Self::spec_enc(result.deep_view()) + cur1@
                                && Self::tail_stop(cur1@));
                        }
                    }
                }
                Ok((result, cur1))
            },
            _ => {
                proof {
                    if Self::complete() && Self::dec_ok(buffer@) {
                        let (w, e) = choose|w: ValType, e: Seq<u8>|
                            Self::spec_wf(w) && buffer@ == Self::spec_enc(w) + e
                                && Self::tail_stop(e);
                        lemma_val_type_head(w);
                        assert((Self::spec_enc(w) + e)[0] == Self::spec_enc(w)[0]);
                        assert(buffer@[0] == val_type_op(w));
                        assert(false);
                    }
                }
                Err(DecodeError::Error)
            },
        }
    }
}

/// `NumType` non-terminal of the binary grammar.
#[derive(Debug, PartialEq)]
pub enum NumType {
    I32,
    I64,
    F32,
    F64,
}

impl DeepView for NumType {
    type V = NumType;

    open spec fn deep_view(&self) -> NumType {
        *self
    }
}

impl Encode for NumType {
    open spec fn spec_enc(v: NumType) -> Seq<u8> {
        match v {
            NumType::I32 => seq![127u8],
            NumType::I64 => seq![126u8],
            NumType::F32 => seq![125u8],
            NumType::F64 => seq![124u8],
        }
    }

    open spec fn spec_wf(v: NumType) -> bool {
        match v {
            NumType::I32 => true,
            NumType::I64 => true,
            NumType::F32 => true,
            NumType::F64 => true,
        }
    }

    #[verifier::rlimit(100)]
    fn encode(&self, buffer: &mut Vec<u8>) {
        match self {
            NumType::I32 => {
                buffer.push(127u8);
                assert(buffer@ =~= old(buffer)@ + seq![127u8]);
            }
            NumType::I64 => {
                buffer.push(126u8);
                assert(buffer@ =~= old(buffer)@ + seq![126u8]);
            }
            NumType::F32 => {
                buffer.push(125u8);
                assert(buffer@ =~= old(buffer)@ + seq![125u8]);
            }
            NumType::F64 => {
                buffer.push(124u8);
                assert(buffer@ =~= old(buffer)@ + seq![124u8]);
            }
        }
        assert(buffer@ =~= old(buffer)@ + Self::spec_enc(self.deep_view()));
    }
}

/// First wire byte of each `NumType` alternative: the discriminator.
pub open spec fn num_type_op(v: NumType) -> u8 {
    match v {
        NumType::I32 => 127u8,
        NumType::I64 => 126u8,
        NumType::F32 => 125u8,
        NumType::F64 => 124u8,
    }
}

/// Every `NumType` encoding starts with its discriminator byte.
pub proof fn lemma_num_type_head(v: NumType)
    ensures
        <NumType as Encode>::spec_enc(v).len() >= 1,
        <NumType as Encode>::spec_enc(v)[0] == num_type_op(v),
{
    match v {
        NumType::I32 => {
        },
        NumType::I64 => {
        },
        NumType::F32 => {
        },
        NumType::F64 => {
        },
    }
}

impl Decode for NumType {
    #[verifier::rlimit(100)]
    proof fn lemma_plain(s: Seq<u8>) {
        assert forall|v: NumType| Self::spec_enc(v).len() >= 1 by {
            lemma_num_type_head(v);
        }
        if Self::dec_ok(Seq::<u8>::empty()) {
            let (v, e) = choose|v: NumType, e: Seq<u8>|
                Self::spec_wf(v) && Seq::<u8>::empty() == Self::spec_enc(v) + e
                    && Self::tail_stop(e);
            assert(Self::spec_enc(v).len() >= 1);
            assert(false);
        }
    }

    #[verifier::rlimit(100)]
    proof fn lemma_unamb(v1: NumType, v2: NumType, e1: Seq<u8>, e2: Seq<u8>) {
        lemma_num_type_head(v1);
        lemma_num_type_head(v2);
        assert((Self::spec_enc(v1) + e1)[0] == Self::spec_enc(v1)[0]);
        assert((Self::spec_enc(v2) + e2)[0] == Self::spec_enc(v2)[0]);
        assert(num_type_op(v1) == num_type_op(v2));
        match v1 {
            NumType::I32 => {
                match v2 {
                    NumType::I32 => {
                        assert(Self::spec_enc(v1) + e1 =~= seq![127u8] + (e1));
                        assert(Self::spec_enc(v2) + e2 =~= seq![127u8] + (e2));
                        lemma_concat_cancel(seq![127u8], e1, seq![127u8], e2);
                        assert(e1 == e2);
                        assert(v1 == v2);
                    },
                    _ => {
                        assert(false);
                    },
                }
            },
            NumType::I64 => {
                match v2 {
                    NumType::I64 => {
                        assert(Self::spec_enc(v1) + e1 =~= seq![126u8] + (e1));
                        assert(Self::spec_enc(v2) + e2 =~= seq![126u8] + (e2));
                        lemma_concat_cancel(seq![126u8], e1, seq![126u8], e2);
                        assert(e1 == e2);
                        assert(v1 == v2);
                    },
                    _ => {
                        assert(false);
                    },
                }
            },
            NumType::F32 => {
                match v2 {
                    NumType::F32 => {
                        assert(Self::spec_enc(v1) + e1 =~= seq![125u8] + (e1));
                        assert(Self::spec_enc(v2) + e2 =~= seq![125u8] + (e2));
                        lemma_concat_cancel(seq![125u8], e1, seq![125u8], e2);
                        assert(e1 == e2);
                        assert(v1 == v2);
                    },
                    _ => {
                        assert(false);
                    },
                }
            },
            NumType::F64 => {
                match v2 {
                    NumType::F64 => {
                        assert(Self::spec_enc(v1) + e1 =~= seq![124u8] + (e1));
                        assert(Self::spec_enc(v2) + e2 =~= seq![124u8] + (e2));
                        lemma_concat_cancel(seq![124u8], e1, seq![124u8], e2);
                        assert(e1 == e2);
                        assert(v1 == v2);
                    },
                    _ => {
                        assert(false);
                    },
                }
            },
        }
    }

    proof fn lemma_covers(v: Self::V, e: Seq<u8>) {
        assert(Self::spec_wf(v) && Self::spec_enc(v) + e == Self::spec_enc(v) + e
            && Self::tail_stop(e));
    }

    #[verifier::rlimit(100)]
    fn decode(buffer: &[u8]) -> (r: DecodeResult<Self>) {
        if buffer.len() == 0 {
            proof {
                if Self::complete() && Self::dec_ok(buffer@) {
                    let (w, e) = choose|w: NumType, e: Seq<u8>|
                        Self::spec_wf(w) && buffer@ == Self::spec_enc(w) + e
                            && Self::tail_stop(e);
                    lemma_num_type_head(w);
                    assert(false);
                }
            }
            return Err(DecodeError::Error);
        }
        let b0 = buffer[0];
        match b0 {
            127u8 => {
                let cur0 = buffer;
                let (lit0, cur1) = match <u8 as Decode>::decode(cur0) {
                    Ok(p) => p,
                    Err(_) => {
                        proof {
                            assert(cur0@.len() >= 1);
                            assert(false);
                        }
                        return Err(DecodeError::Error);
                    },
                };
                if lit0 != 127u8 {
                    proof {
                        assert(cur0@[0] == lit0);
                        assert(false);
                    }
                    return Err(DecodeError::Error);
                }
                assert(buffer@ =~= seq![127u8] + cur1@);
                let result = NumType::I32;
                proof {
                    assert(Self::spec_enc(result.deep_view()) =~= seq![127u8]);
                    assert(buffer@ =~= Self::spec_enc(result.deep_view()) + cur1@);
                    if Self::complete() {
                        assert(Self::dec_ok(buffer@)) by {
                            assert(Self::spec_wf(result.deep_view()) && buffer@
                                == Self::spec_enc(result.deep_view()) + cur1@
                                && Self::tail_stop(cur1@));
                        }
                    }
                }
                Ok((result, cur1))
            },
            126u8 => {
                let cur0 = buffer;
                let (lit0, cur1) = match <u8 as Decode>::decode(cur0) {
                    Ok(p) => p,
                    Err(_) => {
                        proof {
                            assert(cur0@.len() >= 1);
                            assert(false);
                        }
                        return Err(DecodeError::Error);
                    },
                };
                if lit0 != 126u8 {
                    proof {
                        assert(cur0@[0] == lit0);
                        assert(false);
                    }
                    return Err(DecodeError::Error);
                }
                assert(buffer@ =~= seq![126u8] + cur1@);
                let result = NumType::I64;
                proof {
                    assert(Self::spec_enc(result.deep_view()) =~= seq![126u8]);
                    assert(buffer@ =~= Self::spec_enc(result.deep_view()) + cur1@);
                    if Self::complete() {
                        assert(Self::dec_ok(buffer@)) by {
                            assert(Self::spec_wf(result.deep_view()) && buffer@
                                == Self::spec_enc(result.deep_view()) + cur1@
                                && Self::tail_stop(cur1@));
                        }
                    }
                }
                Ok((result, cur1))
            },
            125u8 => {
                let cur0 = buffer;
                let (lit0, cur1) = match <u8 as Decode>::decode(cur0) {
                    Ok(p) => p,
                    Err(_) => {
                        proof {
                            assert(cur0@.len() >= 1);
                            assert(false);
                        }
                        return Err(DecodeError::Error);
                    },
                };
                if lit0 != 125u8 {
                    proof {
                        assert(cur0@[0] == lit0);
                        assert(false);
                    }
                    return Err(DecodeError::Error);
                }
                assert(buffer@ =~= seq![125u8] + cur1@);
                let result = NumType::F32;
                proof {
                    assert(Self::spec_enc(result.deep_view()) =~= seq![125u8]);
                    assert(buffer@ =~= Self::spec_enc(result.deep_view()) + cur1@);
                    if Self::complete() {
                        assert(Self::dec_ok(buffer@)) by {
                            assert(Self::spec_wf(result.deep_view()) && buffer@
                                == Self::spec_enc(result.deep_view()) + cur1@
                                && Self::tail_stop(cur1@));
                        }
                    }
                }
                Ok((result, cur1))
            },
            124u8 => {
                let cur0 = buffer;
                let (lit0, cur1) = match <u8 as Decode>::decode(cur0) {
                    Ok(p) => p,
                    Err(_) => {
                        proof {
                            assert(cur0@.len() >= 1);
                            assert(false);
                        }
                        return Err(DecodeError::Error);
                    },
                };
                if lit0 != 124u8 {
                    proof {
                        assert(cur0@[0] == lit0);
                        assert(false);
                    }
                    return Err(DecodeError::Error);
                }
                assert(buffer@ =~= seq![124u8] + cur1@);
                let result = NumType::F64;
                proof {
                    assert(Self::spec_enc(result.deep_view()) =~= seq![124u8]);
                    assert(buffer@ =~= Self::spec_enc(result.deep_view()) + cur1@);
                    if Self::complete() {
                        assert(Self::dec_ok(buffer@)) by {
                            assert(Self::spec_wf(result.deep_view()) && buffer@
                                == Self::spec_enc(result.deep_view()) + cur1@
                                && Self::tail_stop(cur1@));
                        }
                    }
                }
                Ok((result, cur1))
            },
            _ => {
                proof {
                    if Self::complete() && Self::dec_ok(buffer@) {
                        let (w, e) = choose|w: NumType, e: Seq<u8>|
                            Self::spec_wf(w) && buffer@ == Self::spec_enc(w) + e
                                && Self::tail_stop(e);
                        lemma_num_type_head(w);
                        assert((Self::spec_enc(w) + e)[0] == Self::spec_enc(w)[0]);
                        assert(buffer@[0] == num_type_op(w));
                        assert(false);
                    }
                }
                Err(DecodeError::Error)
            },
        }
    }
}

/// `RefType` non-terminal of the binary grammar.
#[derive(Debug, PartialEq)]
pub enum RefType {
    FuncRef,
    ExternRef,
}

impl DeepView for RefType {
    type V = RefType;

    open spec fn deep_view(&self) -> RefType {
        *self
    }
}

impl Encode for RefType {
    open spec fn spec_enc(v: RefType) -> Seq<u8> {
        match v {
            RefType::FuncRef => seq![112u8],
            RefType::ExternRef => seq![111u8],
        }
    }

    open spec fn spec_wf(v: RefType) -> bool {
        match v {
            RefType::FuncRef => true,
            RefType::ExternRef => true,
        }
    }

    #[verifier::rlimit(100)]
    fn encode(&self, buffer: &mut Vec<u8>) {
        match self {
            RefType::FuncRef => {
                buffer.push(112u8);
                assert(buffer@ =~= old(buffer)@ + seq![112u8]);
            }
            RefType::ExternRef => {
                buffer.push(111u8);
                assert(buffer@ =~= old(buffer)@ + seq![111u8]);
            }
        }
        assert(buffer@ =~= old(buffer)@ + Self::spec_enc(self.deep_view()));
    }
}

/// First wire byte of each `RefType` alternative: the discriminator.
pub open spec fn ref_type_op(v: RefType) -> u8 {
    match v {
        RefType::FuncRef => 112u8,
        RefType::ExternRef => 111u8,
    }
}

/// Every `RefType` encoding starts with its discriminator byte.
pub proof fn lemma_ref_type_head(v: RefType)
    ensures
        <RefType as Encode>::spec_enc(v).len() >= 1,
        <RefType as Encode>::spec_enc(v)[0] == ref_type_op(v),
{
    match v {
        RefType::FuncRef => {
        },
        RefType::ExternRef => {
        },
    }
}

impl Decode for RefType {
    #[verifier::rlimit(100)]
    proof fn lemma_plain(s: Seq<u8>) {
        assert forall|v: RefType| Self::spec_enc(v).len() >= 1 by {
            lemma_ref_type_head(v);
        }
        if Self::dec_ok(Seq::<u8>::empty()) {
            let (v, e) = choose|v: RefType, e: Seq<u8>|
                Self::spec_wf(v) && Seq::<u8>::empty() == Self::spec_enc(v) + e
                    && Self::tail_stop(e);
            assert(Self::spec_enc(v).len() >= 1);
            assert(false);
        }
    }

    #[verifier::rlimit(100)]
    proof fn lemma_unamb(v1: RefType, v2: RefType, e1: Seq<u8>, e2: Seq<u8>) {
        lemma_ref_type_head(v1);
        lemma_ref_type_head(v2);
        assert((Self::spec_enc(v1) + e1)[0] == Self::spec_enc(v1)[0]);
        assert((Self::spec_enc(v2) + e2)[0] == Self::spec_enc(v2)[0]);
        assert(ref_type_op(v1) == ref_type_op(v2));
        match v1 {
            RefType::FuncRef => {
                match v2 {
                    RefType::FuncRef => {
                        assert(Self::spec_enc(v1) + e1 =~= seq![112u8] + (e1));
                        assert(Self::spec_enc(v2) + e2 =~= seq![112u8] + (e2));
                        lemma_concat_cancel(seq![112u8], e1, seq![112u8], e2);
                        assert(e1 == e2);
                        assert(v1 == v2);
                    },
                    _ => {
                        assert(false);
                    },
                }
            },
            RefType::ExternRef => {
                match v2 {
                    RefType::ExternRef => {
                        assert(Self::spec_enc(v1) + e1 =~= seq![111u8] + (e1));
                        assert(Self::spec_enc(v2) + e2 =~= seq![111u8] + (e2));
                        lemma_concat_cancel(seq![111u8], e1, seq![111u8], e2);
                        assert(e1 == e2);
                        assert(v1 == v2);
                    },
                    _ => {
                        assert(false);
                    },
                }
            },
        }
    }

    proof fn lemma_covers(v: Self::V, e: Seq<u8>) {
        assert(Self::spec_wf(v) && Self::spec_enc(v) + e == Self::spec_enc(v) + e
            && Self::tail_stop(e));
    }

    #[verifier::rlimit(100)]
    fn decode(buffer: &[u8]) -> (r: DecodeResult<Self>) {
        if buffer.len() == 0 {
            proof {
                if Self::complete() && Self::dec_ok(buffer@) {
                    let (w, e) = choose|w: RefType, e: Seq<u8>|
                        Self::spec_wf(w) && buffer@ == Self::spec_enc(w) + e
                            && Self::tail_stop(e);
                    lemma_ref_type_head(w);
                    assert(false);
                }
            }
            return Err(DecodeError::Error);
        }
        let b0 = buffer[0];
        match b0 {
            112u8 => {
                let cur0 = buffer;
                let (lit0, cur1) = match <u8 as Decode>::decode(cur0) {
                    Ok(p) => p,
                    Err(_) => {
                        proof {
                            assert(cur0@.len() >= 1);
                            assert(false);
                        }
                        return Err(DecodeError::Error);
                    },
                };
                if lit0 != 112u8 {
                    proof {
                        assert(cur0@[0] == lit0);
                        assert(false);
                    }
                    return Err(DecodeError::Error);
                }
                assert(buffer@ =~= seq![112u8] + cur1@);
                let result = RefType::FuncRef;
                proof {
                    assert(Self::spec_enc(result.deep_view()) =~= seq![112u8]);
                    assert(buffer@ =~= Self::spec_enc(result.deep_view()) + cur1@);
                    if Self::complete() {
                        assert(Self::dec_ok(buffer@)) by {
                            assert(Self::spec_wf(result.deep_view()) && buffer@
                                == Self::spec_enc(result.deep_view()) + cur1@
                                && Self::tail_stop(cur1@));
                        }
                    }
                }
                Ok((result, cur1))
            },
            111u8 => {
                let cur0 = buffer;
                let (lit0, cur1) = match <u8 as Decode>::decode(cur0) {
                    Ok(p) => p,
                    Err(_) => {
                        proof {
                            assert(cur0@.len() >= 1);
                            assert(false);
                        }
                        return Err(DecodeError::Error);
                    },
                };
                if lit0 != 111u8 {
                    proof {
                        assert(cur0@[0] == lit0);
                        assert(false);
                    }
                    return Err(DecodeError::Error);
                }
                assert(buffer@ =~= seq![111u8] + cur1@);
                let result = RefType::ExternRef;
                proof {
                    assert(Self::spec_enc(result.deep_view()) =~= seq![111u8]);
                    assert(buffer@ =~= Self::spec_enc(result.deep_view()) + cur1@);
                    if Self::complete() {
                        assert(Self::dec_ok(buffer@)) by {
                            assert(Self::spec_wf(result.deep_view()) && buffer@
                                == Self::spec_enc(result.deep_view()) + cur1@
                                && Self::tail_stop(cur1@));
                        }
                    }
                }
                Ok((result, cur1))
            },
            _ => {
                proof {
                    if Self::complete() && Self::dec_ok(buffer@) {
                        let (w, e) = choose|w: RefType, e: Seq<u8>|
                            Self::spec_wf(w) && buffer@ == Self::spec_enc(w) + e
                                && Self::tail_stop(e);
                        lemma_ref_type_head(w);
                        assert((Self::spec_enc(w) + e)[0] == Self::spec_enc(w)[0]);
                        assert(buffer@[0] == ref_type_op(w));
                        assert(false);
                    }
                }
                Err(DecodeError::Error)
            },
        }
    }
}

/// `VecType` non-terminal of the binary grammar.
#[derive(Debug, PartialEq)]
pub struct VecType;

impl DeepView for VecType {
    type V = VecType;

    open spec fn deep_view(&self) -> VecType {
        *self
    }
}

impl Encode for VecType {
    open spec fn spec_enc(v: VecType) -> Seq<u8> {
        seq![123u8]
    }

    open spec fn spec_wf(v: VecType) -> bool {
        true
    }

    #[verifier::rlimit(100)]
    fn encode(&self, buffer: &mut Vec<u8>) {
        buffer.push(123u8);
        assert(buffer@ =~= old(buffer)@ + seq![123u8]);
        assert(buffer@ =~= old(buffer)@ + Self::spec_enc(self.deep_view()));
    }
}

impl Decode for VecType {
    #[verifier::rlimit(100)]
    proof fn lemma_plain(s: Seq<u8>) {
        assert forall|v: VecType| Self::spec_enc(v).len() >= 1 by {
            assert(Self::spec_enc(v) =~= seq![123u8]);
        }
        if Self::dec_ok(Seq::<u8>::empty()) {
            let (v, e) = choose|v: VecType, e: Seq<u8>|
                Self::spec_wf(v) && Seq::<u8>::empty() == Self::spec_enc(v) + e
                    && Self::tail_stop(e);
            assert(Self::spec_enc(v).len() >= 1);
            assert(false);
        }
    }

    #[verifier::rlimit(100)]
    proof fn lemma_unamb(v1: VecType, v2: VecType, e1: Seq<u8>, e2: Seq<u8>) {
        assert(Self::spec_enc(v1) + e1 =~= seq![123u8] + (e1));
        assert(Self::spec_enc(v2) + e2 =~= seq![123u8] + (e2));
        lemma_concat_cancel(seq![123u8], e1, seq![123u8], e2);
        assert(e1 == e2);
        assert(v1 == VecType && v2 == VecType);
    }

    proof fn lemma_covers(v: Self::V, e: Seq<u8>) {
        assert(Self::spec_wf(v) && Self::spec_enc(v) + e == Self::spec_enc(v) + e
            && Self::tail_stop(e));
    }

    #[verifier::rlimit(100)]
    fn decode(buffer: &[u8]) -> (r: DecodeResult<Self>) {
        let cur0 = buffer;
        let (lit0, cur1) = match <u8 as Decode>::decode(cur0) {
            Ok(p) => p,
            Err(_) => {
                proof {
                    if Self::complete() && Self::dec_ok(buffer@) {
                        lemma_err_vec_type_vec_type_0_nobyte(buffer@, cur0@);
                    }
                }
                return Err(DecodeError::Error);
            },
        };
        if lit0 != 123u8 {
            proof {
                if Self::complete() && Self::dec_ok(buffer@) {
                    lemma_err_vec_type_vec_type_0_mismatch(buffer@, cur0@);
                }
            }
            return Err(DecodeError::Error);
        }
        assert(buffer@ =~= seq![123u8] + cur1@);
        let result = VecType;
        proof {
            assert(Self::spec_enc(result.deep_view()) =~= seq![123u8]);
            assert(buffer@ =~= Self::spec_enc(result.deep_view()) + cur1@);
            if Self::complete() {
                assert(Self::dec_ok(buffer@)) by {
                    assert(Self::spec_wf(result.deep_view()) && buffer@
                        == Self::spec_enc(result.deep_view()) + cur1@
                        && Self::tail_stop(cur1@));
                }
            }
        }
        Ok((result, cur1))
    }
}

/// What a claimed parse of `VecType` says about the bytes at this point.
#[verifier::rlimit(100)]
proof fn lemma_err_vec_type_vec_type_0_nobyte(buffer: Seq<u8>, c0: Seq<u8>)
    requires
        <VecType as Decode>::complete(),
        <VecType as Decode>::dec_ok(buffer),
        c0 == buffer,
    ensures
        c0.len() >= 1,
{
    let (w, e) = choose|w: VecType, e: Seq<u8>|
        <VecType as Encode>::spec_wf(w) && buffer == <VecType as Encode>::spec_enc(w)
            + e && <VecType as Decode>::tail_stop(e);
    assert(buffer =~= seq![123u8] + (e));
    assert(c0 == seq![123u8] + (e));
    assert(c0.len() >= 1);
}

/// What a claimed parse of `VecType` says about the bytes at this point.
#[verifier::rlimit(100)]
proof fn lemma_err_vec_type_vec_type_0_mismatch(buffer: Seq<u8>, c0: Seq<u8>)
    requires
        <VecType as Decode>::complete(),
        <VecType as Decode>::dec_ok(buffer),
        c0 == buffer,
    ensures
        c0.len() >= 1 && c0[0] == 123u8,
{
    let (w, e) = choose|w: VecType, e: Seq<u8>|
        <VecType as Encode>::spec_wf(w) && buffer == <VecType as Encode>::spec_enc(w)
            + e && <VecType as Decode>::tail_stop(e);
    assert(buffer =~= seq![123u8] + (e));
    assert(c0 == seq![123u8] + (e));
    assert(c0[0] == 123u8);
}

/// `Limits` non-terminal of the binary grammar.
#[derive(Debug, PartialEq)]
pub enum Limits {
    Min(u32),
    MinMax(u32, u32),
}

impl DeepView for Limits {
    type V = Limits;

    open spec fn deep_view(&self) -> Limits {
        *self
    }
}

impl Encode for Limits {
    open spec fn spec_enc(v: Limits) -> Seq<u8> {
        match v {
            Limits::Min(a0) => seq![0u8] + <u32 as Encode>::spec_enc(a0),
            Limits::MinMax(a0, a1) => seq![1u8] + <u32 as Encode>::spec_enc(a0) + <u32 as Encode>::spec_enc(a1),
        }
    }

    open spec fn spec_wf(v: Limits) -> bool {
        match v {
            Limits::Min(a0) => <u32 as Encode>::spec_wf(a0),
            Limits::MinMax(a0, a1) => <u32 as Encode>::spec_wf(a0) && <u32 as Encode>::spec_wf(a1),
        }
    }

    #[verifier::rlimit(100)]
    fn encode(&self, buffer: &mut Vec<u8>) {
        match self {
            Limits::Min(a0) => {
                buffer.push(0u8);
                assert(buffer@ =~= old(buffer)@ + seq![0u8]);
                a0.encode(buffer);
                assert(buffer@ =~= old(buffer)@ + seq![0u8] + <u32 as Encode>::spec_enc(a0.deep_view()));
            }
            Limits::MinMax(a0, a1) => {
                buffer.push(1u8);
                assert(buffer@ =~= old(buffer)@ + seq![1u8]);
                a0.encode(buffer);
                assert(buffer@ =~= old(buffer)@ + seq![1u8] + <u32 as Encode>::spec_enc(a0.deep_view()));
                a1.encode(buffer);
                assert(buffer@ =~= old(buffer)@ + seq![1u8] + <u32 as Encode>::spec_enc(a0.deep_view()) + <u32 as Encode>::spec_enc(a1.deep_view()));
            }
        }
        assert(buffer@ =~= old(buffer)@ + Self::spec_enc(self.deep_view()));
    }
}

/// First wire byte of each `Limits` alternative: the discriminator.
pub open spec fn limits_op(v: Limits) -> u8 {
    match v {
        Limits::Min(_) => 0u8,
        Limits::MinMax(_, _) => 1u8,
    }
}

/// Every `Limits` encoding starts with its discriminator byte.
pub proof fn lemma_limits_head(v: Limits)
    ensures
        <Limits as Encode>::spec_enc(v).len() >= 1,
        <Limits as Encode>::spec_enc(v)[0] == limits_op(v),
{
    match v {
        Limits::Min(a0) => {
            assert(<Limits as Encode>::spec_enc(v) =~= seq![0u8] + (<u32 as Encode>::spec_enc(a0)));
            assert((seq![0u8] + (<u32 as Encode>::spec_enc(a0)))[0] == 0u8);
        },
        Limits::MinMax(a0, a1) => {
            assert(<Limits as Encode>::spec_enc(v) =~= seq![1u8] + (<u32 as Encode>::spec_enc(a0) + <u32 as Encode>::spec_enc(a1)));
            assert((seq![1u8] + (<u32 as Encode>::spec_enc(a0) + <u32 as Encode>::spec_enc(a1)))[0] == 1u8);
        },
    }
}

impl Decode for Limits {
    open spec fn complete() -> bool {
        <u32 as Decode>::complete()
    }

    #[verifier::rlimit(100)]
    proof fn lemma_plain(s: Seq<u8>) {
        assert forall|v: Limits| Self::spec_enc(v).len() >= 1 by {
            lemma_limits_head(v);
        }
        if Self::dec_ok(Seq::<u8>::empty()) {
            let (v, e) = choose|v: Limits, e: Seq<u8>|
                Self::spec_wf(v) && Seq::<u8>::empty() == Self::spec_enc(v) + e
                    && Self::tail_stop(e);
            assert(Self::spec_enc(v).len() >= 1);
            assert(false);
        }
    }

    #[verifier::rlimit(100)]
    proof fn lemma_unamb(v1: Limits, v2: Limits, e1: Seq<u8>, e2: Seq<u8>) {
        lemma_limits_head(v1);
        lemma_limits_head(v2);
        assert((Self::spec_enc(v1) + e1)[0] == Self::spec_enc(v1)[0]);
        assert((Self::spec_enc(v2) + e2)[0] == Self::spec_enc(v2)[0]);
        assert(limits_op(v1) == limits_op(v2));
        match v1 {
            Limits::Min(a0) => {
                match v2 {
                    Limits::Min(b0) => {
                        assert(Self::spec_enc(v1) + e1 =~= seq![0u8] + (<u32 as Encode>::spec_enc(a0) + (e1)));
                        assert(Self::spec_enc(v2) + e2 =~= seq![0u8] + (<u32 as Encode>::spec_enc(b0) + (e2)));
                        lemma_concat_cancel(seq![0u8], <u32 as Encode>::spec_enc(a0) + (e1), seq![0u8], <u32 as Encode>::spec_enc(b0) + (e2));
                        <u32 as Decode>::lemma_plain(e1);
                        <u32 as Decode>::lemma_plain(e2);
                        <u32 as Decode>::lemma_unamb(a0, b0, e1, e2);
                        assert(e1 == e2);
                        assert(a0 == b0);
                        assert(v1 == v2);
                    },
                    _ => {
                        assert(false);
                    },
                }
            },
            Limits::MinMax(a0, a1) => {
                match v2 {
                    Limits::MinMax(b0, b1) => {
                        assert(Self::spec_enc(v1) + e1 =~= seq![1u8] + (<u32 as Encode>::spec_enc(a0) + (<u32 as Encode>::spec_enc(a1) + (e1))));
                        assert(Self::spec_enc(v2) + e2 =~= seq![1u8] + (<u32 as Encode>::spec_enc(b0) + (<u32 as Encode>::spec_enc(b1) + (e2))));
                        lemma_concat_cancel(seq![1u8], <u32 as Encode>::spec_enc(a0) + (<u32 as Encode>::spec_enc(a1) + (e1)), seq![1u8], <u32 as Encode>::spec_enc(b0) + (<u32 as Encode>::spec_enc(b1) + (e2)));
                        <u32 as Decode>::lemma_plain(<u32 as Encode>::spec_enc(a1) + (e1));
                        <u32 as Decode>::lemma_plain(<u32 as Encode>::spec_enc(b1) + (e2));
                        <u32 as Decode>::lemma_unamb(a0, b0, <u32 as Encode>::spec_enc(a1) + (e1), <u32 as Encode>::spec_enc(b1) + (e2));
                        <u32 as Decode>::lemma_plain(e1);
                        <u32 as Decode>::lemma_plain(e2);
                        <u32 as Decode>::lemma_unamb(a1, b1, e1, e2);
                        assert(e1 == e2);
                        assert(a0 == b0 && a1 == b1);
                        assert(v1 == v2);
                    },
                    _ => {
                        assert(false);
                    },
                }
            },
        }
    }

    proof fn lemma_covers(v: Self::V, e: Seq<u8>) {
        assert(Self::spec_wf(v) && Self::spec_enc(v) + e == Self::spec_enc(v) + e
            && Self::tail_stop(e));
    }

    #[verifier::rlimit(100)]
    fn decode(buffer: &[u8]) -> (r: DecodeResult<Self>) {
        if buffer.len() == 0 {
            proof {
                if Self::complete() && Self::dec_ok(buffer@) {
                    let (w, e) = choose|w: Limits, e: Seq<u8>|
                        Self::spec_wf(w) && buffer@ == Self::spec_enc(w) + e
                            && Self::tail_stop(e);
                    lemma_limits_head(w);
                    assert(false);
                }
            }
            return Err(DecodeError::Error);
        }
        let b0 = buffer[0];
        match b0 {
            0u8 => {
                let cur0 = buffer;
                let (lit0, cur1) = match <u8 as Decode>::decode(cur0) {
                    Ok(p) => p,
                    Err(_) => {
                        proof {
                            assert(cur0@.len() >= 1);
                            assert(false);
                        }
                        return Err(DecodeError::Error);
                    },
                };
                if lit0 != 0u8 {
                    proof {
                        assert(cur0@[0] == lit0);
                        assert(false);
                    }
                    return Err(DecodeError::Error);
                }
                assert(buffer@ =~= seq![0u8] + cur1@);
                let (f1, cur2) = match <u32 as Decode>::decode(cur1) {
                    Ok(p) => p,
                    Err(_) => {
                        proof {
                            if Self::complete() && Self::dec_ok(buffer@) {
                                lemma_err_limits_min_1_fail(buffer@, cur0@, cur1@);
                            }
                        }
                        return Err(DecodeError::Error);
                    },
                };
                assert(buffer@ =~= seq![0u8] + <u32 as Encode>::spec_enc(f1.deep_view()) + cur2@);
                let result = Limits::Min(f1);
                proof {
                    assert(Self::spec_enc(result.deep_view()) =~= seq![0u8] + <u32 as Encode>::spec_enc(f1.deep_view()));
                    assert(buffer@ =~= Self::spec_enc(result.deep_view()) + cur2@);
                    if Self::complete() {
                        assert(Self::dec_ok(buffer@)) by {
                            assert(Self::spec_wf(result.deep_view()) && buffer@
                                == Self::spec_enc(result.deep_view()) + cur2@
                                && Self::tail_stop(cur2@));
                        }
                    }
                }
                Ok((result, cur2))
            },
            1u8 => {
                let cur0 = buffer;
                let (lit0, cur1) = match <u8 as Decode>::decode(cur0) {
                    Ok(p) => p,
                    Err(_) => {
                        proof {
                            assert(cur0@.len() >= 1);
                            assert(false);
                        }
                        return Err(DecodeError::Error);
                    },
                };
                if lit0 != 1u8 {
                    proof {
                        assert(cur0@[0] == lit0);
                        assert(false);
                    }
                    return Err(DecodeError::Error);
                }
                assert(buffer@ =~= seq![1u8] + cur1@);
                let (f1, cur2) = match <u32 as Decode>::decode(cur1) {
                    Ok(p) => p,
                    Err(_) => {
                        proof {
                            if Self::complete() && Self::dec_ok(buffer@) {
                                lemma_err_limits_min_max_1_fail(buffer@, cur0@, cur1@);
                            }
                        }
                        return Err(DecodeError::Error);
                    },
                };
                assert(buffer@ =~= seq![1u8] + <u32 as Encode>::spec_enc(f1.deep_view()) + cur2@);
                let (f2, cur3) = match <u32 as Decode>::decode(cur2) {
                    Ok(p) => p,
                    Err(_) => {
                        proof {
                            if Self::complete() && Self::dec_ok(buffer@) {
                                lemma_err_limits_min_max_2_fail(buffer@, cur0@, cur1@, cur2@, f1.deep_view());
                            }
                        }
                        return Err(DecodeError::Error);
                    },
                };
                assert(buffer@ =~= seq![1u8] + <u32 as Encode>::spec_enc(f1.deep_view()) + <u32 as Encode>::spec_enc(f2.deep_view()) + cur3@);
                let result = Limits::MinMax(f1, f2);
                proof {
                    assert(Self::spec_enc(result.deep_view()) =~= seq![1u8] + <u32 as Encode>::spec_enc(f1.deep_view()) + <u32 as Encode>::spec_enc(f2.deep_view()));
                    assert(buffer@ =~= Self::spec_enc(result.deep_view()) + cur3@);
                    if Self::complete() {
                        assert(Self::dec_ok(buffer@)) by {
                            assert(Self::spec_wf(result.deep_view()) && buffer@
                                == Self::spec_enc(result.deep_view()) + cur3@
                                && Self::tail_stop(cur3@));
                        }
                    }
                }
                Ok((result, cur3))
            },
            _ => {
                proof {
                    if Self::complete() && Self::dec_ok(buffer@) {
                        let (w, e) = choose|w: Limits, e: Seq<u8>|
                            Self::spec_wf(w) && buffer@ == Self::spec_enc(w) + e
                                && Self::tail_stop(e);
                        lemma_limits_head(w);
                        assert((Self::spec_enc(w) + e)[0] == Self::spec_enc(w)[0]);
                        assert(buffer@[0] == limits_op(w));
                        assert(false);
                    }
                }
                Err(DecodeError::Error)
            },
        }
    }
}

/// What a claimed parse of `Limits` says about the bytes at this point.
#[verifier::rlimit(100)]
proof fn lemma_err_limits_min_1_fail(buffer: Seq<u8>, c0: Seq<u8>, c1: Seq<u8>)
    requires
        <Limits as Decode>::complete(),
        <Limits as Decode>::dec_ok(buffer),
        c0 == buffer,
        c0 == seq![0u8] + c1,
    ensures
        <u32 as Decode>::dec_ok(c1),
{
    let (w, e) = choose|w: Limits, e: Seq<u8>|
        <Limits as Encode>::spec_wf(w) && buffer == <Limits as Encode>::spec_enc(w)
            + e && <Limits as Decode>::tail_stop(e);
    lemma_limits_head(w);
    assert((<Limits as Encode>::spec_enc(w) + e)[0]
        == <Limits as Encode>::spec_enc(w)[0]);
    assert(buffer[0] == limits_op(w));
    assert(limits_op(w) == 0u8);
    match w {
        Limits::Min(wv0) => {
            assert(buffer =~= seq![0u8] + (<u32 as Encode>::spec_enc(wv0) + (e)));
            lemma_concat_cancel(seq![0u8], c1, seq![0u8], <u32 as Encode>::spec_enc(wv0) + (e));
            assert(c1 == <u32 as Encode>::spec_enc(wv0) + (e));
            assert(c1 == <u32 as Encode>::spec_enc(wv0) + (e));
            <u32 as Decode>::lemma_plain(e);
            <u32 as Decode>::lemma_covers(wv0, e);
            assert(<u32 as Decode>::dec_ok(c1));
        },
        _ => {
            assert(false);
        },
    }
}

/// What a claimed parse of `Limits` says about the bytes at this point.
#[verifier::rlimit(100)]
proof fn lemma_err_limits_min_max_1_fail(buffer: Seq<u8>, c0: Seq<u8>, c1: Seq<u8>)
    requires
        <Limits as Decode>::complete(),
        <Limits as Decode>::dec_ok(buffer),
        c0 == buffer,
        c0 == seq![1u8] + c1,
    ensures
        <u32 as Decode>::dec_ok(c1),
{
    let (w, e) = choose|w: Limits, e: Seq<u8>|
        <Limits as Encode>::spec_wf(w) && buffer == <Limits as Encode>::spec_enc(w)
            + e && <Limits as Decode>::tail_stop(e);
    lemma_limits_head(w);
    assert((<Limits as Encode>::spec_enc(w) + e)[0]
        == <Limits as Encode>::spec_enc(w)[0]);
    assert(buffer[0] == limits_op(w));
    assert(limits_op(w) == 1u8);
    match w {
        Limits::MinMax(wv0, wv1) => {
            assert(buffer =~= seq![1u8] + (<u32 as Encode>::spec_enc(wv0) + (<u32 as Encode>::spec_enc(wv1) + (e))));
            lemma_concat_cancel(seq![1u8], c1, seq![1u8], <u32 as Encode>::spec_enc(wv0) + (<u32 as Encode>::spec_enc(wv1) + (e)));
            assert(c1 == <u32 as Encode>::spec_enc(wv0) + (<u32 as Encode>::spec_enc(wv1) + (e)));
            assert(c1 == <u32 as Encode>::spec_enc(wv0) + (<u32 as Encode>::spec_enc(wv1) + (e)));
            <u32 as Decode>::lemma_plain(<u32 as Encode>::spec_enc(wv1) + (e));
            <u32 as Decode>::lemma_covers(wv0, <u32 as Encode>::spec_enc(wv1) + (e));
            assert(<u32 as Decode>::dec_ok(c1));
        },
        _ => {
            assert(false);
        },
    }
}

/// What a claimed parse of `Limits` says about the bytes at this point.
#[verifier::rlimit(100)]
proof fn lemma_err_limits_min_max_2_fail(buffer: Seq<u8>, c0: Seq<u8>, c1: Seq<u8>, c2: Seq<u8>, w1: u32)
    requires
        <Limits as Decode>::complete(),
        <Limits as Decode>::dec_ok(buffer),
        c0 == buffer,
        c0 == seq![1u8] + c1,
        c1 == <u32 as Encode>::spec_enc(w1) + c2,
        <u32 as Encode>::spec_wf(w1),
        <u32 as Decode>::tail_stop(c2),
    ensures
        <u32 as Decode>::dec_ok(c2),
{
    let (w, e) = choose|w: Limits, e: Seq<u8>|
        <Limits as Encode>::spec_wf(w) && buffer == <Limits as Encode>::spec_enc(w)
            + e && <Limits as Decode>::tail_stop(e);
    lemma_limits_head(w);
    assert((<Limits as Encode>::spec_enc(w) + e)[0]
        == <Limits as Encode>::spec_enc(w)[0]);
    assert(buffer[0] == limits_op(w));
    assert(limits_op(w) == 1u8);
    match w {
        Limits::MinMax(wv0, wv1) => {
            assert(buffer =~= seq![1u8] + (<u32 as Encode>::spec_enc(wv0) + (<u32 as Encode>::spec_enc(wv1) + (e))));
            lemma_concat_cancel(seq![1u8], c1, seq![1u8], <u32 as Encode>::spec_enc(wv0) + (<u32 as Encode>::spec_enc(wv1) + (e)));
            assert(c1 == <u32 as Encode>::spec_enc(wv0) + (<u32 as Encode>::spec_enc(wv1) + (e)));
            <u32 as Decode>::lemma_plain(c2);
            <u32 as Decode>::lemma_plain(<u32 as Encode>::spec_enc(wv1) + (e));
            <u32 as Decode>::lemma_unamb(w1, wv0, c2, <u32 as Encode>::spec_enc(wv1) + (e));
            assert(c2 == <u32 as Encode>::spec_enc(wv1) + (e));
            assert(c2 == <u32 as Encode>::spec_enc(wv1) + (e));
            <u32 as Decode>::lemma_plain(e);
            <u32 as Decode>::lemma_covers(wv1, e);
            assert(<u32 as Decode>::dec_ok(c2));
        },
        _ => {
            assert(false);
        },
    }
}

/// `Mut` non-terminal of the binary grammar.
#[derive(Debug, PartialEq)]
pub enum Mut {
    Const,
    Mut,
}

impl DeepView for Mut {
    type V = Mut;

    open spec fn deep_view(&self) -> Mut {
        *self
    }
}

impl Encode for Mut {
    open spec fn spec_enc(v: Mut) -> Seq<u8> {
        match v {
            Mut::Const => seq![0u8],
            Mut::Mut => seq![1u8],
        }
    }

    open spec fn spec_wf(v: Mut) -> bool {
        match v {
            Mut::Const => true,
            Mut::Mut => true,
        }
    }

    #[verifier::rlimit(100)]
    fn encode(&self, buffer: &mut Vec<u8>) {
        match self {
            Mut::Const => {
                buffer.push(0u8);
                assert(buffer@ =~= old(buffer)@ + seq![0u8]);
            }
            Mut::Mut => {
                buffer.push(1u8);
                assert(buffer@ =~= old(buffer)@ + seq![1u8]);
            }
        }
        assert(buffer@ =~= old(buffer)@ + Self::spec_enc(self.deep_view()));
    }
}

/// First wire byte of each `Mut` alternative: the discriminator.
pub open spec fn mut_op(v: Mut) -> u8 {
    match v {
        Mut::Const => 0u8,
        Mut::Mut => 1u8,
    }
}

/// Every `Mut` encoding starts with its discriminator byte.
pub proof fn lemma_mut_head(v: Mut)
    ensures
        <Mut as Encode>::spec_enc(v).len() >= 1,
        <Mut as Encode>::spec_enc(v)[0] == mut_op(v),
{
    match v {
        Mut::Const => {
        },
        Mut::Mut => {
        },
    }
}

impl Decode for Mut {
    #[verifier::rlimit(100)]
    proof fn lemma_plain(s: Seq<u8>) {
        assert forall|v: Mut| Self::spec_enc(v).len() >= 1 by {
            lemma_mut_head(v);
        }
        if Self::dec_ok(Seq::<u8>::empty()) {
            let (v, e) = choose|v: Mut, e: Seq<u8>|
                Self::spec_wf(v) && Seq::<u8>::empty() == Self::spec_enc(v) + e
                    && Self::tail_stop(e);
            assert(Self::spec_enc(v).len() >= 1);
            assert(false);
        }
    }

    #[verifier::rlimit(100)]
    proof fn lemma_unamb(v1: Mut, v2: Mut, e1: Seq<u8>, e2: Seq<u8>) {
        lemma_mut_head(v1);
        lemma_mut_head(v2);
        assert((Self::spec_enc(v1) + e1)[0] == Self::spec_enc(v1)[0]);
        assert((Self::spec_enc(v2) + e2)[0] == Self::spec_enc(v2)[0]);
        assert(mut_op(v1) == mut_op(v2));
        match v1 {
            Mut::Const => {
                match v2 {
                    Mut::Const => {
                        assert(Self::spec_enc(v1) + e1 =~= seq![0u8] + (e1));
                        assert(Self::spec_enc(v2) + e2 =~= seq![0u8] + (e2));
                        lemma_concat_cancel(seq![0u8], e1, seq![0u8], e2);
                        assert(e1 == e2);
                        assert(v1 == v2);
                    },
                    _ => {
                        assert(false);
                    },
                }
            },
            Mut::Mut => {
                match v2 {
                    Mut::Mut => {
                        assert(Self::spec_enc(v1) + e1 =~= seq![1u8] + (e1));
                        assert(Self::spec_enc(v2) + e2 =~= seq![1u8] + (e2));
                        lemma_concat_cancel(seq![1u8], e1, seq![1u8], e2);
                        assert(e1 == e2);
                        assert(v1 == v2);
                    },
                    _ => {
                        assert(false);
                    },
                }
            },
        }
    }

    proof fn lemma_covers(v: Self::V, e: Seq<u8>) {
        assert(Self::spec_wf(v) && Self::spec_enc(v) + e == Self::spec_enc(v) + e
            && Self::tail_stop(e));
    }

    #[verifier::rlimit(100)]
    fn decode(buffer: &[u8]) -> (r: DecodeResult<Self>) {
        if buffer.len() == 0 {
            proof {
                if Self::complete() && Self::dec_ok(buffer@) {
                    let (w, e) = choose|w: Mut, e: Seq<u8>|
                        Self::spec_wf(w) && buffer@ == Self::spec_enc(w) + e
                            && Self::tail_stop(e);
                    lemma_mut_head(w);
                    assert(false);
                }
            }
            return Err(DecodeError::Error);
        }
        let b0 = buffer[0];
        match b0 {
            0u8 => {
                let cur0 = buffer;
                let (lit0, cur1) = match <u8 as Decode>::decode(cur0) {
                    Ok(p) => p,
                    Err(_) => {
                        proof {
                            assert(cur0@.len() >= 1);
                            assert(false);
                        }
                        return Err(DecodeError::Error);
                    },
                };
                if lit0 != 0u8 {
                    proof {
                        assert(cur0@[0] == lit0);
                        assert(false);
                    }
                    return Err(DecodeError::Error);
                }
                assert(buffer@ =~= seq![0u8] + cur1@);
                let result = Mut::Const;
                proof {
                    assert(Self::spec_enc(result.deep_view()) =~= seq![0u8]);
                    assert(buffer@ =~= Self::spec_enc(result.deep_view()) + cur1@);
                    if Self::complete() {
                        assert(Self::dec_ok(buffer@)) by {
                            assert(Self::spec_wf(result.deep_view()) && buffer@
                                == Self::spec_enc(result.deep_view()) + cur1@
                                && Self::tail_stop(cur1@));
                        }
                    }
                }
                Ok((result, cur1))
            },
            1u8 => {
                let cur0 = buffer;
                let (lit0, cur1) = match <u8 as Decode>::decode(cur0) {
                    Ok(p) => p,
                    Err(_) => {
                        proof {
                            assert(cur0@.len() >= 1);
                            assert(false);
                        }
                        return Err(DecodeError::Error);
                    },
                };
                if lit0 != 1u8 {
                    proof {
                        assert(cur0@[0] == lit0);
                        assert(false);
                    }
                    return Err(DecodeError::Error);
                }
                assert(buffer@ =~= seq![1u8] + cur1@);
                let result = Mut::Mut;
                proof {
                    assert(Self::spec_enc(result.deep_view()) =~= seq![1u8]);
                    assert(buffer@ =~= Self::spec_enc(result.deep_view()) + cur1@);
                    if Self::complete() {
                        assert(Self::dec_ok(buffer@)) by {
                            assert(Self::spec_wf(result.deep_view()) && buffer@
                                == Self::spec_enc(result.deep_view()) + cur1@
                                && Self::tail_stop(cur1@));
                        }
                    }
                }
                Ok((result, cur1))
            },
            _ => {
                proof {
                    if Self::complete() && Self::dec_ok(buffer@) {
                        let (w, e) = choose|w: Mut, e: Seq<u8>|
                            Self::spec_wf(w) && buffer@ == Self::spec_enc(w) + e
                                && Self::tail_stop(e);
                        lemma_mut_head(w);
                        assert((Self::spec_enc(w) + e)[0] == Self::spec_enc(w)[0]);
                        assert(buffer@[0] == mut_op(w));
                        assert(false);
                    }
                }
                Err(DecodeError::Error)
            },
        }
    }
}

/// `TableType` non-terminal of the binary grammar.
#[derive(Debug, PartialEq)]
pub struct TableType(pub RefType, pub Limits);

impl DeepView for TableType {
    type V = TableType;

    open spec fn deep_view(&self) -> TableType {
        *self
    }
}

impl Encode for TableType {
    open spec fn spec_enc(v: TableType) -> Seq<u8> {
        <RefType as Encode>::spec_enc(v.0) + <Limits as Encode>::spec_enc(v.1)
    }

    open spec fn spec_wf(v: TableType) -> bool {
        <RefType as Encode>::spec_wf(v.0) && <Limits as Encode>::spec_wf(v.1)
    }

    #[verifier::rlimit(100)]
    fn encode(&self, buffer: &mut Vec<u8>) {
        self.0.encode(buffer);
        assert(buffer@ =~= old(buffer)@ + <RefType as Encode>::spec_enc(self.0.deep_view()));
        self.1.encode(buffer);
        assert(buffer@ =~= old(buffer)@ + <RefType as Encode>::spec_enc(self.0.deep_view()) + <Limits as Encode>::spec_enc(self.1.deep_view()));
        assert(buffer@ =~= old(buffer)@ + Self::spec_enc(self.deep_view()));
    }
}

impl Decode for TableType {
    open spec fn complete() -> bool {
        <RefType as Decode>::complete() && <Limits as Decode>::complete()
    }

    #[verifier::rlimit(100)]
    proof fn lemma_plain(s: Seq<u8>) {
        assert forall|v: TableType| Self::spec_enc(v).len() >= 1 by {
            <RefType as Decode>::lemma_plain(s);
            assert(Self::spec_enc(v) =~= <RefType as Encode>::spec_enc(v.0) + <Limits as Encode>::spec_enc(v.1));
        }
        if Self::dec_ok(Seq::<u8>::empty()) {
            let (v, e) = choose|v: TableType, e: Seq<u8>|
                Self::spec_wf(v) && Seq::<u8>::empty() == Self::spec_enc(v) + e
                    && Self::tail_stop(e);
            assert(Self::spec_enc(v).len() >= 1);
            assert(false);
        }
    }

    #[verifier::rlimit(100)]
    proof fn lemma_unamb(v1: TableType, v2: TableType, e1: Seq<u8>, e2: Seq<u8>) {
        assert(Self::spec_enc(v1) + e1 =~= <RefType as Encode>::spec_enc(v1.0) + (<Limits as Encode>::spec_enc(v1.1) + (e1)));
        assert(Self::spec_enc(v2) + e2 =~= <RefType as Encode>::spec_enc(v2.0) + (<Limits as Encode>::spec_enc(v2.1) + (e2)));
        <RefType as Decode>::lemma_plain(<Limits as Encode>::spec_enc(v1.1) + (e1));
        <RefType as Decode>::lemma_plain(<Limits as Encode>::spec_enc(v2.1) + (e2));
        <RefType as Decode>::lemma_unamb(v1.0, v2.0, <Limits as Encode>::spec_enc(v1.1) + (e1), <Limits as Encode>::spec_enc(v2.1) + (e2));
        <Limits as Decode>::lemma_plain(e1);
        <Limits as Decode>::lemma_plain(e2);
        <Limits as Decode>::lemma_unamb(v1.1, v2.1, e1, e2);
        assert(e1 == e2);
        assert(v1 == TableType(v1.0, v1.1) && v2 == TableType(v2.0, v2.1));
    }

    proof fn lemma_covers(v: Self::V, e: Seq<u8>) {
        assert(Self::spec_wf(v) && Self::spec_enc(v) + e == Self::spec_enc(v) + e
            && Self::tail_stop(e));
    }

    #[verifier::rlimit(100)]
    fn decode(buffer: &[u8]) -> (r: DecodeResult<Self>) {
        let cur0 = buffer;
        let (f0, cur1) = match <RefType as Decode>::decode(cur0) {
            Ok(p) => p,
            Err(_) => {
                proof {
                    if Self::complete() && Self::dec_ok(buffer@) {
                        lemma_err_table_type_table_type_0_fail(buffer@, cur0@);
                    }
                }
                return Err(DecodeError::Error);
            },
        };
        assert(buffer@ =~= <RefType as Encode>::spec_enc(f0.deep_view()) + cur1@);
        let (f1, cur2) = match <Limits as Decode>::decode(cur1) {
            Ok(p) => p,
            Err(_) => {
                proof {
                    if Self::complete() && Self::dec_ok(buffer@) {
                        lemma_err_table_type_table_type_1_fail(buffer@, cur0@, cur1@, f0.deep_view());
                    }
                }
                return Err(DecodeError::Error);
            },
        };
        assert(buffer@ =~= <RefType as Encode>::spec_enc(f0.deep_view()) + <Limits as Encode>::spec_enc(f1.deep_view()) + cur2@);
        let result = TableType(f0, f1);
        proof {
            assert(Self::spec_enc(result.deep_view()) =~= <RefType as Encode>::spec_enc(f0.deep_view()) + <Limits as Encode>::spec_enc(f1.deep_view()));
            assert(buffer@ =~= Self::spec_enc(result.deep_view()) + cur2@);
            if Self::complete() {
                assert(Self::dec_ok(buffer@)) by {
                    assert(Self::spec_wf(result.deep_view()) && buffer@
                        == Self::spec_enc(result.deep_view()) + cur2@
                        && Self::tail_stop(cur2@));
                }
            }
        }
        Ok((result, cur2))
    }
}

/// What a claimed parse of `TableType` says about the bytes at this point.
#[verifier::rlimit(100)]
proof fn lemma_err_table_type_table_type_0_fail(buffer: Seq<u8>, c0: Seq<u8>)
    requires
        <TableType as Decode>::complete(),
        <TableType as Decode>::dec_ok(buffer),
        c0 == buffer,
    ensures
        <RefType as Decode>::dec_ok(c0),
{
    let (w, e) = choose|w: TableType, e: Seq<u8>|
        <TableType as Encode>::spec_wf(w) && buffer == <TableType as Encode>::spec_enc(w)
            + e && <TableType as Decode>::tail_stop(e);
    assert(buffer =~= <RefType as Encode>::spec_enc(w.0) + (<Limits as Encode>::spec_enc(w.1) + (e)));
    assert(c0 == <RefType as Encode>::spec_enc(w.0) + (<Limits as Encode>::spec_enc(w.1) + (e)));
    <RefType as Decode>::lemma_plain(<Limits as Encode>::spec_enc(w.1) + (e));
    <RefType as Decode>::lemma_covers(w.0, <Limits as Encode>::spec_enc(w.1) + (e));
    assert(<RefType as Decode>::dec_ok(c0));
}

/// What a claimed parse of `TableType` says about the bytes at this point.
#[verifier::rlimit(100)]
proof fn lemma_err_table_type_table_type_1_fail(buffer: Seq<u8>, c0: Seq<u8>, c1: Seq<u8>, w0: RefType)
    requires
        <TableType as Decode>::complete(),
        <TableType as Decode>::dec_ok(buffer),
        c0 == buffer,
        c0 == <RefType as Encode>::spec_enc(w0) + c1,
        <RefType as Encode>::spec_wf(w0),
        <RefType as Decode>::tail_stop(c1),
    ensures
        <Limits as Decode>::dec_ok(c1),
{
    let (w, e) = choose|w: TableType, e: Seq<u8>|
        <TableType as Encode>::spec_wf(w) && buffer == <TableType as Encode>::spec_enc(w)
            + e && <TableType as Decode>::tail_stop(e);
    assert(buffer =~= <RefType as Encode>::spec_enc(w.0) + (<Limits as Encode>::spec_enc(w.1) + (e)));
    <RefType as Decode>::lemma_plain(c1);
    <RefType as Decode>::lemma_plain(<Limits as Encode>::spec_enc(w.1) + (e));
    <RefType as Decode>::lemma_unamb(w0, w.0, c1, <Limits as Encode>::spec_enc(w.1) + (e));
    assert(c1 == <Limits as Encode>::spec_enc(w.1) + (e));
    assert(c1 == <Limits as Encode>::spec_enc(w.1) + (e));
    <Limits as Decode>::lemma_plain(e);
    <Limits as Decode>::lemma_covers(w.1, e);
    assert(<Limits as Decode>::dec_ok(c1));
}

/// `MemType` non-terminal of the binary grammar.
#[derive(Debug, PartialEq)]
pub struct MemType(pub Limits);

impl DeepView for MemType {
    type V = MemType;

    open spec fn deep_view(&self) -> MemType {
        *self
    }
}

impl Encode for MemType {
    open spec fn spec_enc(v: MemType) -> Seq<u8> {
        <Limits as Encode>::spec_enc(v.0)
    }

    open spec fn spec_wf(v: MemType) -> bool {
        <Limits as Encode>::spec_wf(v.0)
    }

    #[verifier::rlimit(100)]
    fn encode(&self, buffer: &mut Vec<u8>) {
        self.0.encode(buffer);
        assert(buffer@ =~= old(buffer)@ + <Limits as Encode>::spec_enc(self.0.deep_view()));
        assert(buffer@ =~= old(buffer)@ + Self::spec_enc(self.deep_view()));
    }
}

impl Decode for MemType {
    open spec fn complete() -> bool {
        <Limits as Decode>::complete()
    }

    #[verifier::rlimit(100)]
    proof fn lemma_plain(s: Seq<u8>) {
        assert forall|v: MemType| Self::spec_enc(v).len() >= 1 by {
            <Limits as Decode>::lemma_plain(s);
            assert(Self::spec_enc(v) =~= <Limits as Encode>::spec_enc(v.0));
        }
        if Self::dec_ok(Seq::<u8>::empty()) {
            let (v, e) = choose|v: MemType, e: Seq<u8>|
                Self::spec_wf(v) && Seq::<u8>::empty() == Self::spec_enc(v) + e
                    && Self::tail_stop(e);
            assert(Self::spec_enc(v).len() >= 1);
            assert(false);
        }
    }

    #[verifier::rlimit(100)]
    proof fn lemma_unamb(v1: MemType, v2: MemType, e1: Seq<u8>, e2: Seq<u8>) {
        assert(Self::spec_enc(v1) + e1 =~= <Limits as Encode>::spec_enc(v1.0) + (e1));
        assert(Self::spec_enc(v2) + e2 =~= <Limits as Encode>::spec_enc(v2.0) + (e2));
        <Limits as Decode>::lemma_plain(e1);
        <Limits as Decode>::lemma_plain(e2);
        <Limits as Decode>::lemma_unamb(v1.0, v2.0, e1, e2);
        assert(e1 == e2);
        assert(v1 == MemType(v1.0) && v2 == MemType(v2.0));
    }

    proof fn lemma_covers(v: Self::V, e: Seq<u8>) {
        assert(Self::spec_wf(v) && Self::spec_enc(v) + e == Self::spec_enc(v) + e
            && Self::tail_stop(e));
    }

    #[verifier::rlimit(100)]
    fn decode(buffer: &[u8]) -> (r: DecodeResult<Self>) {
        let cur0 = buffer;
        let (f0, cur1) = match <Limits as Decode>::decode(cur0) {
            Ok(p) => p,
            Err(_) => {
                proof {
                    if Self::complete() && Self::dec_ok(buffer@) {
                        lemma_err_mem_type_mem_type_0_fail(buffer@, cur0@);
                    }
                }
                return Err(DecodeError::Error);
            },
        };
        assert(buffer@ =~= <Limits as Encode>::spec_enc(f0.deep_view()) + cur1@);
        let result = MemType(f0);
        proof {
            assert(Self::spec_enc(result.deep_view()) =~= <Limits as Encode>::spec_enc(f0.deep_view()));
            assert(buffer@ =~= Self::spec_enc(result.deep_view()) + cur1@);
            if Self::complete() {
                assert(Self::dec_ok(buffer@)) by {
                    assert(Self::spec_wf(result.deep_view()) && buffer@
                        == Self::spec_enc(result.deep_view()) + cur1@
                        && Self::tail_stop(cur1@));
                }
            }
        }
        Ok((result, cur1))
    }
}

/// What a claimed parse of `MemType` says about the bytes at this point.
#[verifier::rlimit(100)]
proof fn lemma_err_mem_type_mem_type_0_fail(buffer: Seq<u8>, c0: Seq<u8>)
    requires
        <MemType as Decode>::complete(),
        <MemType as Decode>::dec_ok(buffer),
        c0 == buffer,
    ensures
        <Limits as Decode>::dec_ok(c0),
{
    let (w, e) = choose|w: MemType, e: Seq<u8>|
        <MemType as Encode>::spec_wf(w) && buffer == <MemType as Encode>::spec_enc(w)
            + e && <MemType as Decode>::tail_stop(e);
    assert(buffer =~= <Limits as Encode>::spec_enc(w.0) + (e));
    assert(c0 == <Limits as Encode>::spec_enc(w.0) + (e));
    <Limits as Decode>::lemma_plain(e);
    <Limits as Decode>::lemma_covers(w.0, e);
    assert(<Limits as Decode>::dec_ok(c0));
}

/// `GlobalType` non-terminal of the binary grammar.
#[derive(Debug, PartialEq)]
pub struct GlobalType(pub ValType, pub Mut);

impl DeepView for GlobalType {
    type V = GlobalType;

    open spec fn deep_view(&self) -> GlobalType {
        *self
    }
}

impl Encode for GlobalType {
    open spec fn spec_enc(v: GlobalType) -> Seq<u8> {
        <ValType as Encode>::spec_enc(v.0) + <Mut as Encode>::spec_enc(v.1)
    }

    open spec fn spec_wf(v: GlobalType) -> bool {
        <ValType as Encode>::spec_wf(v.0) && <Mut as Encode>::spec_wf(v.1)
    }

    #[verifier::rlimit(100)]
    fn encode(&self, buffer: &mut Vec<u8>) {
        self.0.encode(buffer);
        assert(buffer@ =~= old(buffer)@ + <ValType as Encode>::spec_enc(self.0.deep_view()));
        self.1.encode(buffer);
        assert(buffer@ =~= old(buffer)@ + <ValType as Encode>::spec_enc(self.0.deep_view()) + <Mut as Encode>::spec_enc(self.1.deep_view()));
        assert(buffer@ =~= old(buffer)@ + Self::spec_enc(self.deep_view()));
    }
}

impl Decode for GlobalType {
    open spec fn complete() -> bool {
        <ValType as Decode>::complete() && <Mut as Decode>::complete()
    }

    #[verifier::rlimit(100)]
    proof fn lemma_plain(s: Seq<u8>) {
        assert forall|v: GlobalType| Self::spec_enc(v).len() >= 1 by {
            <ValType as Decode>::lemma_plain(s);
            assert(Self::spec_enc(v) =~= <ValType as Encode>::spec_enc(v.0) + <Mut as Encode>::spec_enc(v.1));
        }
        if Self::dec_ok(Seq::<u8>::empty()) {
            let (v, e) = choose|v: GlobalType, e: Seq<u8>|
                Self::spec_wf(v) && Seq::<u8>::empty() == Self::spec_enc(v) + e
                    && Self::tail_stop(e);
            assert(Self::spec_enc(v).len() >= 1);
            assert(false);
        }
    }

    #[verifier::rlimit(100)]
    proof fn lemma_unamb(v1: GlobalType, v2: GlobalType, e1: Seq<u8>, e2: Seq<u8>) {
        assert(Self::spec_enc(v1) + e1 =~= <ValType as Encode>::spec_enc(v1.0) + (<Mut as Encode>::spec_enc(v1.1) + (e1)));
        assert(Self::spec_enc(v2) + e2 =~= <ValType as Encode>::spec_enc(v2.0) + (<Mut as Encode>::spec_enc(v2.1) + (e2)));
        <ValType as Decode>::lemma_plain(<Mut as Encode>::spec_enc(v1.1) + (e1));
        <ValType as Decode>::lemma_plain(<Mut as Encode>::spec_enc(v2.1) + (e2));
        <ValType as Decode>::lemma_unamb(v1.0, v2.0, <Mut as Encode>::spec_enc(v1.1) + (e1), <Mut as Encode>::spec_enc(v2.1) + (e2));
        <Mut as Decode>::lemma_plain(e1);
        <Mut as Decode>::lemma_plain(e2);
        <Mut as Decode>::lemma_unamb(v1.1, v2.1, e1, e2);
        assert(e1 == e2);
        assert(v1 == GlobalType(v1.0, v1.1) && v2 == GlobalType(v2.0, v2.1));
    }

    proof fn lemma_covers(v: Self::V, e: Seq<u8>) {
        assert(Self::spec_wf(v) && Self::spec_enc(v) + e == Self::spec_enc(v) + e
            && Self::tail_stop(e));
    }

    #[verifier::rlimit(100)]
    fn decode(buffer: &[u8]) -> (r: DecodeResult<Self>) {
        let cur0 = buffer;
        let (f0, cur1) = match <ValType as Decode>::decode(cur0) {
            Ok(p) => p,
            Err(_) => {
                proof {
                    if Self::complete() && Self::dec_ok(buffer@) {
                        lemma_err_global_type_global_type_0_fail(buffer@, cur0@);
                    }
                }
                return Err(DecodeError::Error);
            },
        };
        assert(buffer@ =~= <ValType as Encode>::spec_enc(f0.deep_view()) + cur1@);
        let (f1, cur2) = match <Mut as Decode>::decode(cur1) {
            Ok(p) => p,
            Err(_) => {
                proof {
                    if Self::complete() && Self::dec_ok(buffer@) {
                        lemma_err_global_type_global_type_1_fail(buffer@, cur0@, cur1@, f0.deep_view());
                    }
                }
                return Err(DecodeError::Error);
            },
        };
        assert(buffer@ =~= <ValType as Encode>::spec_enc(f0.deep_view()) + <Mut as Encode>::spec_enc(f1.deep_view()) + cur2@);
        let result = GlobalType(f0, f1);
        proof {
            assert(Self::spec_enc(result.deep_view()) =~= <ValType as Encode>::spec_enc(f0.deep_view()) + <Mut as Encode>::spec_enc(f1.deep_view()));
            assert(buffer@ =~= Self::spec_enc(result.deep_view()) + cur2@);
            if Self::complete() {
                assert(Self::dec_ok(buffer@)) by {
                    assert(Self::spec_wf(result.deep_view()) && buffer@
                        == Self::spec_enc(result.deep_view()) + cur2@
                        && Self::tail_stop(cur2@));
                }
            }
        }
        Ok((result, cur2))
    }
}

/// What a claimed parse of `GlobalType` says about the bytes at this point.
#[verifier::rlimit(100)]
proof fn lemma_err_global_type_global_type_0_fail(buffer: Seq<u8>, c0: Seq<u8>)
    requires
        <GlobalType as Decode>::complete(),
        <GlobalType as Decode>::dec_ok(buffer),
        c0 == buffer,
    ensures
        <ValType as Decode>::dec_ok(c0),
{
    let (w, e) = choose|w: GlobalType, e: Seq<u8>|
        <GlobalType as Encode>::spec_wf(w) && buffer == <GlobalType as Encode>::spec_enc(w)
            + e && <GlobalType as Decode>::tail_stop(e);
    assert(buffer =~= <ValType as Encode>::spec_enc(w.0) + (<Mut as Encode>::spec_enc(w.1) + (e)));
    assert(c0 == <ValType as Encode>::spec_enc(w.0) + (<Mut as Encode>::spec_enc(w.1) + (e)));
    <ValType as Decode>::lemma_plain(<Mut as Encode>::spec_enc(w.1) + (e));
    <ValType as Decode>::lemma_covers(w.0, <Mut as Encode>::spec_enc(w.1) + (e));
    assert(<ValType as Decode>::dec_ok(c0));
}

/// What a claimed parse of `GlobalType` says about the bytes at this point.
#[verifier::rlimit(100)]
proof fn lemma_err_global_type_global_type_1_fail(buffer: Seq<u8>, c0: Seq<u8>, c1: Seq<u8>, w0: ValType)
    requires
        <GlobalType as Decode>::complete(),
        <GlobalType as Decode>::dec_ok(buffer),
        c0 == buffer,
        c0 == <ValType as Encode>::spec_enc(w0) + c1,
        <ValType as Encode>::spec_wf(w0),
        <ValType as Decode>::tail_stop(c1),
    ensures
        <Mut as Decode>::dec_ok(c1),
{
    let (w, e) = choose|w: GlobalType, e: Seq<u8>|
        <GlobalType as Encode>::spec_wf(w) && buffer == <GlobalType as Encode>::spec_enc(w)
            + e && <GlobalType as Decode>::tail_stop(e);
    assert(buffer =~= <ValType as Encode>::spec_enc(w.0) + (<Mut as Encode>::spec_enc(w.1) + (e)));
    <ValType as Decode>::lemma_plain(c1);
    <ValType as Decode>::lemma_plain(<Mut as Encode>::spec_enc(w.1) + (e));
    <ValType as Decode>::lemma_unamb(w0, w.0, c1, <Mut as Encode>::spec_enc(w.1) + (e));
    assert(c1 == <Mut as Encode>::spec_enc(w.1) + (e));
    assert(c1 == <Mut as Encode>::spec_enc(w.1) + (e));
    <Mut as Decode>::lemma_plain(e);
    <Mut as Decode>::lemma_covers(w.1, e);
    assert(<Mut as Decode>::dec_ok(c1));
}

/// `TypeIdx` non-terminal of the binary grammar.
#[derive(Debug, PartialEq)]
pub struct TypeIdx(pub u32);

impl DeepView for TypeIdx {
    type V = TypeIdx;

    open spec fn deep_view(&self) -> TypeIdx {
        *self
    }
}

impl Encode for TypeIdx {
    open spec fn spec_enc(v: TypeIdx) -> Seq<u8> {
        <u32 as Encode>::spec_enc(v.0)
    }

    open spec fn spec_wf(v: TypeIdx) -> bool {
        <u32 as Encode>::spec_wf(v.0)
    }

    #[verifier::rlimit(100)]
    fn encode(&self, buffer: &mut Vec<u8>) {
        self.0.encode(buffer);
        assert(buffer@ =~= old(buffer)@ + <u32 as Encode>::spec_enc(self.0.deep_view()));
        assert(buffer@ =~= old(buffer)@ + Self::spec_enc(self.deep_view()));
    }
}

impl Decode for TypeIdx {
    open spec fn complete() -> bool {
        <u32 as Decode>::complete()
    }

    #[verifier::rlimit(100)]
    proof fn lemma_plain(s: Seq<u8>) {
        assert forall|v: TypeIdx| Self::spec_enc(v).len() >= 1 by {
            <u32 as Decode>::lemma_plain(s);
            assert(Self::spec_enc(v) =~= <u32 as Encode>::spec_enc(v.0));
        }
        if Self::dec_ok(Seq::<u8>::empty()) {
            let (v, e) = choose|v: TypeIdx, e: Seq<u8>|
                Self::spec_wf(v) && Seq::<u8>::empty() == Self::spec_enc(v) + e
                    && Self::tail_stop(e);
            assert(Self::spec_enc(v).len() >= 1);
            assert(false);
        }
    }

    #[verifier::rlimit(100)]
    proof fn lemma_unamb(v1: TypeIdx, v2: TypeIdx, e1: Seq<u8>, e2: Seq<u8>) {
        assert(Self::spec_enc(v1) + e1 =~= <u32 as Encode>::spec_enc(v1.0) + (e1));
        assert(Self::spec_enc(v2) + e2 =~= <u32 as Encode>::spec_enc(v2.0) + (e2));
        <u32 as Decode>::lemma_plain(e1);
        <u32 as Decode>::lemma_plain(e2);
        <u32 as Decode>::lemma_unamb(v1.0, v2.0, e1, e2);
        assert(e1 == e2);
        assert(v1 == TypeIdx(v1.0) && v2 == TypeIdx(v2.0));
    }

    proof fn lemma_covers(v: Self::V, e: Seq<u8>) {
        assert(Self::spec_wf(v) && Self::spec_enc(v) + e == Self::spec_enc(v) + e
            && Self::tail_stop(e));
    }

    #[verifier::rlimit(100)]
    fn decode(buffer: &[u8]) -> (r: DecodeResult<Self>) {
        let cur0 = buffer;
        let (f0, cur1) = match <u32 as Decode>::decode(cur0) {
            Ok(p) => p,
            Err(_) => {
                proof {
                    if Self::complete() && Self::dec_ok(buffer@) {
                        lemma_err_type_idx_type_idx_0_fail(buffer@, cur0@);
                    }
                }
                return Err(DecodeError::Error);
            },
        };
        assert(buffer@ =~= <u32 as Encode>::spec_enc(f0.deep_view()) + cur1@);
        let result = TypeIdx(f0);
        proof {
            assert(Self::spec_enc(result.deep_view()) =~= <u32 as Encode>::spec_enc(f0.deep_view()));
            assert(buffer@ =~= Self::spec_enc(result.deep_view()) + cur1@);
            if Self::complete() {
                assert(Self::dec_ok(buffer@)) by {
                    assert(Self::spec_wf(result.deep_view()) && buffer@
                        == Self::spec_enc(result.deep_view()) + cur1@
                        && Self::tail_stop(cur1@));
                }
            }
        }
        Ok((result, cur1))
    }
}

/// What a claimed parse of `TypeIdx` says about the bytes at this point.
#[verifier::rlimit(100)]
proof fn lemma_err_type_idx_type_idx_0_fail(buffer: Seq<u8>, c0: Seq<u8>)
    requires
        <TypeIdx as Decode>::complete(),
        <TypeIdx as Decode>::dec_ok(buffer),
        c0 == buffer,
    ensures
        <u32 as Decode>::dec_ok(c0),
{
    let (w, e) = choose|w: TypeIdx, e: Seq<u8>|
        <TypeIdx as Encode>::spec_wf(w) && buffer == <TypeIdx as Encode>::spec_enc(w)
            + e && <TypeIdx as Decode>::tail_stop(e);
    assert(buffer =~= <u32 as Encode>::spec_enc(w.0) + (e));
    assert(c0 == <u32 as Encode>::spec_enc(w.0) + (e));
    <u32 as Decode>::lemma_plain(e);
    <u32 as Decode>::lemma_covers(w.0, e);
    assert(<u32 as Decode>::dec_ok(c0));
}

/// `TableIdx` non-terminal of the binary grammar.
#[derive(Debug, PartialEq)]
pub struct TableIdx(pub u32);

impl DeepView for TableIdx {
    type V = TableIdx;

    open spec fn deep_view(&self) -> TableIdx {
        *self
    }
}

impl Encode for TableIdx {
    open spec fn spec_enc(v: TableIdx) -> Seq<u8> {
        <u32 as Encode>::spec_enc(v.0)
    }

    open spec fn spec_wf(v: TableIdx) -> bool {
        <u32 as Encode>::spec_wf(v.0)
    }

    #[verifier::rlimit(100)]
    fn encode(&self, buffer: &mut Vec<u8>) {
        self.0.encode(buffer);
        assert(buffer@ =~= old(buffer)@ + <u32 as Encode>::spec_enc(self.0.deep_view()));
        assert(buffer@ =~= old(buffer)@ + Self::spec_enc(self.deep_view()));
    }
}

impl Decode for TableIdx {
    open spec fn complete() -> bool {
        <u32 as Decode>::complete()
    }

    #[verifier::rlimit(100)]
    proof fn lemma_plain(s: Seq<u8>) {
        assert forall|v: TableIdx| Self::spec_enc(v).len() >= 1 by {
            <u32 as Decode>::lemma_plain(s);
            assert(Self::spec_enc(v) =~= <u32 as Encode>::spec_enc(v.0));
        }
        if Self::dec_ok(Seq::<u8>::empty()) {
            let (v, e) = choose|v: TableIdx, e: Seq<u8>|
                Self::spec_wf(v) && Seq::<u8>::empty() == Self::spec_enc(v) + e
                    && Self::tail_stop(e);
            assert(Self::spec_enc(v).len() >= 1);
            assert(false);
        }
    }

    #[verifier::rlimit(100)]
    proof fn lemma_unamb(v1: TableIdx, v2: TableIdx, e1: Seq<u8>, e2: Seq<u8>) {
        assert(Self::spec_enc(v1) + e1 =~= <u32 as Encode>::spec_enc(v1.0) + (e1));
        assert(Self::spec_enc(v2) + e2 =~= <u32 as Encode>::spec_enc(v2.0) + (e2));
        <u32 as Decode>::lemma_plain(e1);
        <u32 as Decode>::lemma_plain(e2);
        <u32 as Decode>::lemma_unamb(v1.0, v2.0, e1, e2);
        assert(e1 == e2);
        assert(v1 == TableIdx(v1.0) && v2 == TableIdx(v2.0));
    }

    proof fn lemma_covers(v: Self::V, e: Seq<u8>) {
        assert(Self::spec_wf(v) && Self::spec_enc(v) + e == Self::spec_enc(v) + e
            && Self::tail_stop(e));
    }

    #[verifier::rlimit(100)]
    fn decode(buffer: &[u8]) -> (r: DecodeResult<Self>) {
        let cur0 = buffer;
        let (f0, cur1) = match <u32 as Decode>::decode(cur0) {
            Ok(p) => p,
            Err(_) => {
                proof {
                    if Self::complete() && Self::dec_ok(buffer@) {
                        lemma_err_table_idx_table_idx_0_fail(buffer@, cur0@);
                    }
                }
                return Err(DecodeError::Error);
            },
        };
        assert(buffer@ =~= <u32 as Encode>::spec_enc(f0.deep_view()) + cur1@);
        let result = TableIdx(f0);
        proof {
            assert(Self::spec_enc(result.deep_view()) =~= <u32 as Encode>::spec_enc(f0.deep_view()));
            assert(buffer@ =~= Self::spec_enc(result.deep_view()) + cur1@);
            if Self::complete() {
                assert(Self::dec_ok(buffer@)) by {
                    assert(Self::spec_wf(result.deep_view()) && buffer@
                        == Self::spec_enc(result.deep_view()) + cur1@
                        && Self::tail_stop(cur1@));
                }
            }
        }
        Ok((result, cur1))
    }
}

/// What a claimed parse of `TableIdx` says about the bytes at this point.
#[verifier::rlimit(100)]
proof fn lemma_err_table_idx_table_idx_0_fail(buffer: Seq<u8>, c0: Seq<u8>)
    requires
        <TableIdx as Decode>::complete(),
        <TableIdx as Decode>::dec_ok(buffer),
        c0 == buffer,
    ensures
        <u32 as Decode>::dec_ok(c0),
{
    let (w, e) = choose|w: TableIdx, e: Seq<u8>|
        <TableIdx as Encode>::spec_wf(w) && buffer == <TableIdx as Encode>::spec_enc(w)
            + e && <TableIdx as Decode>::tail_stop(e);
    assert(buffer =~= <u32 as Encode>::spec_enc(w.0) + (e));
    assert(c0 == <u32 as Encode>::spec_enc(w.0) + (e));
    <u32 as Decode>::lemma_plain(e);
    <u32 as Decode>::lemma_covers(w.0, e);
    assert(<u32 as Decode>::dec_ok(c0));
}

/// `FuncIdx` non-terminal of the binary grammar.
#[derive(Debug, PartialEq)]
pub struct FuncIdx(pub u32);

impl DeepView for FuncIdx {
    type V = FuncIdx;

    open spec fn deep_view(&self) -> FuncIdx {
        *self
    }
}

impl Encode for FuncIdx {
    open spec fn spec_enc(v: FuncIdx) -> Seq<u8> {
        <u32 as Encode>::spec_enc(v.0)
    }

    open spec fn spec_wf(v: FuncIdx) -> bool {
        <u32 as Encode>::spec_wf(v.0)
    }

    #[verifier::rlimit(100)]
    fn encode(&self, buffer: &mut Vec<u8>) {
        self.0.encode(buffer);
        assert(buffer@ =~= old(buffer)@ + <u32 as Encode>::spec_enc(self.0.deep_view()));
        assert(buffer@ =~= old(buffer)@ + Self::spec_enc(self.deep_view()));
    }
}

impl Decode for FuncIdx {
    open spec fn complete() -> bool {
        <u32 as Decode>::complete()
    }

    #[verifier::rlimit(100)]
    proof fn lemma_plain(s: Seq<u8>) {
        assert forall|v: FuncIdx| Self::spec_enc(v).len() >= 1 by {
            <u32 as Decode>::lemma_plain(s);
            assert(Self::spec_enc(v) =~= <u32 as Encode>::spec_enc(v.0));
        }
        if Self::dec_ok(Seq::<u8>::empty()) {
            let (v, e) = choose|v: FuncIdx, e: Seq<u8>|
                Self::spec_wf(v) && Seq::<u8>::empty() == Self::spec_enc(v) + e
                    && Self::tail_stop(e);
            assert(Self::spec_enc(v).len() >= 1);
            assert(false);
        }
    }

    #[verifier::rlimit(100)]
    proof fn lemma_unamb(v1: FuncIdx, v2: FuncIdx, e1: Seq<u8>, e2: Seq<u8>) {
        assert(Self::spec_enc(v1) + e1 =~= <u32 as Encode>::spec_enc(v1.0) + (e1));
        assert(Self::spec_enc(v2) + e2 =~= <u32 as Encode>::spec_enc(v2.0) + (e2));
        <u32 as Decode>::lemma_plain(e1);
        <u32 as Decode>::lemma_plain(e2);
        <u32 as Decode>::lemma_unamb(v1.0, v2.0, e1, e2);
        assert(e1 == e2);
        assert(v1 == FuncIdx(v1.0) && v2 == FuncIdx(v2.0));
    }

    proof fn lemma_covers(v: Self::V, e: Seq<u8>) {
        assert(Self::spec_wf(v) && Self::spec_enc(v) + e == Self::spec_enc(v) + e
            && Self::tail_stop(e));
    }

    #[verifier::rlimit(100)]
    fn decode(buffer: &[u8]) -> (r: DecodeResult<Self>) {
        let cur0 = buffer;
        let (f0, cur1) = match <u32 as Decode>::decode(cur0) {
            Ok(p) => p,
            Err(_) => {
                proof {
                    if Self::complete() && Self::dec_ok(buffer@) {
                        lemma_err_func_idx_func_idx_0_fail(buffer@, cur0@);
                    }
                }
                return Err(DecodeError::Error);
            },
        };
        assert(buffer@ =~= <u32 as Encode>::spec_enc(f0.deep_view()) + cur1@);
        let result = FuncIdx(f0);
        proof {
            assert(Self::spec_enc(result.deep_view()) =~= <u32 as Encode>::spec_enc(f0.deep_view()));
            assert(buffer@ =~= Self::spec_enc(result.deep_view()) + cur1@);
            if Self::complete() {
                assert(Self::dec_ok(buffer@)) by {
                    assert(Self::spec_wf(result.deep_view()) && buffer@
                        == Self::spec_enc(result.deep_view()) + cur1@
                        && Self::tail_stop(cur1@));
                }
            }
        }
        Ok((result, cur1))
    }
}

/// What a claimed parse of `FuncIdx` says about the bytes at this point.
#[verifier::rlimit(100)]
proof fn lemma_err_func_idx_func_idx_0_fail(buffer: Seq<u8>, c0: Seq<u8>)
    requires
        <FuncIdx as Decode>::complete(),
        <FuncIdx as Decode>::dec_ok(buffer),
        c0 == buffer,
    ensures
        <u32 as Decode>::dec_ok(c0),
{
    let (w, e) = choose|w: FuncIdx, e: Seq<u8>|
        <FuncIdx as Encode>::spec_wf(w) && buffer == <FuncIdx as Encode>::spec_enc(w)
            + e && <FuncIdx as Decode>::tail_stop(e);
    assert(buffer =~= <u32 as Encode>::spec_enc(w.0) + (e));
    assert(c0 == <u32 as Encode>::spec_enc(w.0) + (e));
    <u32 as Decode>::lemma_plain(e);
    <u32 as Decode>::lemma_covers(w.0, e);
    assert(<u32 as Decode>::dec_ok(c0));
}

/// `MemIdx` non-terminal of the binary grammar.
#[derive(Debug, PartialEq)]
pub struct MemIdx(pub u32);

impl DeepView for MemIdx {
    type V = MemIdx;

    open spec fn deep_view(&self) -> MemIdx {
        *self
    }
}

impl Encode for MemIdx {
    open spec fn spec_enc(v: MemIdx) -> Seq<u8> {
        <u32 as Encode>::spec_enc(v.0)
    }

    open spec fn spec_wf(v: MemIdx) -> bool {
        <u32 as Encode>::spec_wf(v.0)
    }

    #[verifier::rlimit(100)]
    fn encode(&self, buffer: &mut Vec<u8>) {
        self.0.encode(buffer);
        assert(buffer@ =~= old(buffer)@ + <u32 as Encode>::spec_enc(self.0.deep_view()));
        assert(buffer@ =~= old(buffer)@ + Self::spec_enc(self.deep_view()));
    }
}

impl Decode for MemIdx {
    open spec fn complete() -> bool {
        <u32 as Decode>::complete()
    }

    #[verifier::rlimit(100)]
    proof fn lemma_plain(s: Seq<u8>) {
        assert forall|v: MemIdx| Self::spec_enc(v).len() >= 1 by {
            <u32 as Decode>::lemma_plain(s);
            assert(Self::spec_enc(v) =~= <u32 as Encode>::spec_enc(v.0));
        }
        if Self::dec_ok(Seq::<u8>::empty()) {
            let (v, e) = choose|v: MemIdx, e: Seq<u8>|
                Self::spec_wf(v) && Seq::<u8>::empty() == Self::spec_enc(v) + e
                    && Self::tail_stop(e);
            assert(Self::spec_enc(v).len() >= 1);
            assert(false);
        }
    }

    #[verifier::rlimit(100)]
    proof fn lemma_unamb(v1: MemIdx, v2: MemIdx, e1: Seq<u8>, e2: Seq<u8>) {
        assert(Self::spec_enc(v1) + e1 =~= <u32 as Encode>::spec_enc(v1.0) + (e1));
        assert(Self::spec_enc(v2) + e2 =~= <u32 as Encode>::spec_enc(v2.0) + (e2));
        <u32 as Decode>::lemma_plain(e1);
        <u32 as Decode>::lemma_plain(e2);
        <u32 as Decode>::lemma_unamb(v1.0, v2.0, e1, e2);
        assert(e1 == e2);
        assert(v1 == MemIdx(v1.0) && v2 == MemIdx(v2.0));
    }

    proof fn lemma_covers(v: Self::V, e: Seq<u8>) {
        assert(Self::spec_wf(v) && Self::spec_enc(v) + e == Self::spec_enc(v) + e
            && Self::tail_stop(e));
    }

    #[verifier::rlimit(100)]
    fn decode(buffer: &[u8]) -> (r: DecodeResult<Self>) {
        let cur0 = buffer;
        let (f0, cur1) = match <u32 as Decode>::decode(cur0) {
            Ok(p) => p,
            Err(_) => {
                proof {
                    if Self::complete() && Self::dec_ok(buffer@) {
                        lemma_err_mem_idx_mem_idx_0_fail(buffer@, cur0@);
                    }
                }
                return Err(DecodeError::Error);
            },
        };
        assert(buffer@ =~= <u32 as Encode>::spec_enc(f0.deep_view()) + cur1@);
        let result = MemIdx(f0);
        proof {
            assert(Self::spec_enc(result.deep_view()) =~= <u32 as Encode>::spec_enc(f0.deep_view()));
            assert(buffer@ =~= Self::spec_enc(result.deep_view()) + cur1@);
            if Self::complete() {
                assert(Self::dec_ok(buffer@)) by {
                    assert(Self::spec_wf(result.deep_view()) && buffer@
                        == Self::spec_enc(result.deep_view()) + cur1@
                        && Self::tail_stop(cur1@));
                }
            }
        }
        Ok((result, cur1))
    }
}

/// What a claimed parse of `MemIdx` says about the bytes at this point.
#[verifier::rlimit(100)]
proof fn lemma_err_mem_idx_mem_idx_0_fail(buffer: Seq<u8>, c0: Seq<u8>)
    requires
        <MemIdx as Decode>::complete(),
        <MemIdx as Decode>::dec_ok(buffer),
        c0 == buffer,
    ensures
        <u32 as Decode>::dec_ok(c0),
{
    let (w, e) = choose|w: MemIdx, e: Seq<u8>|
        <MemIdx as Encode>::spec_wf(w) && buffer == <MemIdx as Encode>::spec_enc(w)
            + e && <MemIdx as Decode>::tail_stop(e);
    assert(buffer =~= <u32 as Encode>::spec_enc(w.0) + (e));
    assert(c0 == <u32 as Encode>::spec_enc(w.0) + (e));
    <u32 as Decode>::lemma_plain(e);
    <u32 as Decode>::lemma_covers(w.0, e);
    assert(<u32 as Decode>::dec_ok(c0));
}

/// `GlobalIdx` non-terminal of the binary grammar.
#[derive(Debug, PartialEq)]
pub struct GlobalIdx(pub u32);

impl DeepView for GlobalIdx {
    type V = GlobalIdx;

    open spec fn deep_view(&self) -> GlobalIdx {
        *self
    }
}

impl Encode for GlobalIdx {
    open spec fn spec_enc(v: GlobalIdx) -> Seq<u8> {
        <u32 as Encode>::spec_enc(v.0)
    }

    open spec fn spec_wf(v: GlobalIdx) -> bool {
        <u32 as Encode>::spec_wf(v.0)
    }

    #[verifier::rlimit(100)]
    fn encode(&self, buffer: &mut Vec<u8>) {
        self.0.encode(buffer);
        assert(buffer@ =~= old(buffer)@ + <u32 as Encode>::spec_enc(self.0.deep_view()));
        assert(buffer@ =~= old(buffer)@ + Self::spec_enc(self.deep_view()));
    }
}

impl Decode for GlobalIdx {
    open spec fn complete() -> bool {
        <u32 as Decode>::complete()
    }

    #[verifier::rlimit(100)]
    proof fn lemma_plain(s: Seq<u8>) {
        assert forall|v: GlobalIdx| Self::spec_enc(v).len() >= 1 by {
            <u32 as Decode>::lemma_plain(s);
            assert(Self::spec_enc(v) =~= <u32 as Encode>::spec_enc(v.0));
        }
        if Self::dec_ok(Seq::<u8>::empty()) {
            let (v, e) = choose|v: GlobalIdx, e: Seq<u8>|
                Self::spec_wf(v) && Seq::<u8>::empty() == Self::spec_enc(v) + e
                    && Self::tail_stop(e);
            assert(Self::spec_enc(v).len() >= 1);
            assert(false);
        }
    }

    #[verifier::rlimit(100)]
    proof fn lemma_unamb(v1: GlobalIdx, v2: GlobalIdx, e1: Seq<u8>, e2: Seq<u8>) {
        assert(Self::spec_enc(v1) + e1 =~= <u32 as Encode>::spec_enc(v1.0) + (e1));
        assert(Self::spec_enc(v2) + e2 =~= <u32 as Encode>::spec_enc(v2.0) + (e2));
        <u32 as Decode>::lemma_plain(e1);
        <u32 as Decode>::lemma_plain(e2);
        <u32 as Decode>::lemma_unamb(v1.0, v2.0, e1, e2);
        assert(e1 == e2);
        assert(v1 == GlobalIdx(v1.0) && v2 == GlobalIdx(v2.0));
    }

    proof fn lemma_covers(v: Self::V, e: Seq<u8>) {
        assert(Self::spec_wf(v) && Self::spec_enc(v) + e == Self::spec_enc(v) + e
            && Self::tail_stop(e));
    }

    #[verifier::rlimit(100)]
    fn decode(buffer: &[u8]) -> (r: DecodeResult<Self>) {
        let cur0 = buffer;
        let (f0, cur1) = match <u32 as Decode>::decode(cur0) {
            Ok(p) => p,
            Err(_) => {
                proof {
                    if Self::complete() && Self::dec_ok(buffer@) {
                        lemma_err_global_idx_global_idx_0_fail(buffer@, cur0@);
                    }
                }
                return Err(DecodeError::Error);
            },
        };
        assert(buffer@ =~= <u32 as Encode>::spec_enc(f0.deep_view()) + cur1@);
        let result = GlobalIdx(f0);
        proof {
            assert(Self::spec_enc(result.deep_view()) =~= <u32 as Encode>::spec_enc(f0.deep_view()));
            assert(buffer@ =~= Self::spec_enc(result.deep_view()) + cur1@);
            if Self::complete() {
                assert(Self::dec_ok(buffer@)) by {
                    assert(Self::spec_wf(result.deep_view()) && buffer@
                        == Self::spec_enc(result.deep_view()) + cur1@
                        && Self::tail_stop(cur1@));
                }
            }
        }
        Ok((result, cur1))
    }
}

/// What a claimed parse of `GlobalIdx` says about the bytes at this point.
#[verifier::rlimit(100)]
proof fn lemma_err_global_idx_global_idx_0_fail(buffer: Seq<u8>, c0: Seq<u8>)
    requires
        <GlobalIdx as Decode>::complete(),
        <GlobalIdx as Decode>::dec_ok(buffer),
        c0 == buffer,
    ensures
        <u32 as Decode>::dec_ok(c0),
{
    let (w, e) = choose|w: GlobalIdx, e: Seq<u8>|
        <GlobalIdx as Encode>::spec_wf(w) && buffer == <GlobalIdx as Encode>::spec_enc(w)
            + e && <GlobalIdx as Decode>::tail_stop(e);
    assert(buffer =~= <u32 as Encode>::spec_enc(w.0) + (e));
    assert(c0 == <u32 as Encode>::spec_enc(w.0) + (e));
    <u32 as Decode>::lemma_plain(e);
    <u32 as Decode>::lemma_covers(w.0, e);
    assert(<u32 as Decode>::dec_ok(c0));
}

/// `LabelIdx` non-terminal of the binary grammar.
#[derive(Debug, PartialEq)]
pub struct LabelIdx(pub u32);

impl DeepView for LabelIdx {
    type V = LabelIdx;

    open spec fn deep_view(&self) -> LabelIdx {
        *self
    }
}

impl Encode for LabelIdx {
    open spec fn spec_enc(v: LabelIdx) -> Seq<u8> {
        <u32 as Encode>::spec_enc(v.0)
    }

    open spec fn spec_wf(v: LabelIdx) -> bool {
        <u32 as Encode>::spec_wf(v.0)
    }

    #[verifier::rlimit(100)]
    fn encode(&self, buffer: &mut Vec<u8>) {
        self.0.encode(buffer);
        assert(buffer@ =~= old(buffer)@ + <u32 as Encode>::spec_enc(self.0.deep_view()));
        assert(buffer@ =~= old(buffer)@ + Self::spec_enc(self.deep_view()));
    }
}

impl Decode for LabelIdx {
    open spec fn complete() -> bool {
        <u32 as Decode>::complete()
    }

    #[verifier::rlimit(100)]
    proof fn lemma_plain(s: Seq<u8>) {
        assert forall|v: LabelIdx| Self::spec_enc(v).len() >= 1 by {
            <u32 as Decode>::lemma_plain(s);
            assert(Self::spec_enc(v) =~= <u32 as Encode>::spec_enc(v.0));
        }
        if Self::dec_ok(Seq::<u8>::empty()) {
            let (v, e) = choose|v: LabelIdx, e: Seq<u8>|
                Self::spec_wf(v) && Seq::<u8>::empty() == Self::spec_enc(v) + e
                    && Self::tail_stop(e);
            assert(Self::spec_enc(v).len() >= 1);
            assert(false);
        }
    }

    #[verifier::rlimit(100)]
    proof fn lemma_unamb(v1: LabelIdx, v2: LabelIdx, e1: Seq<u8>, e2: Seq<u8>) {
        assert(Self::spec_enc(v1) + e1 =~= <u32 as Encode>::spec_enc(v1.0) + (e1));
        assert(Self::spec_enc(v2) + e2 =~= <u32 as Encode>::spec_enc(v2.0) + (e2));
        <u32 as Decode>::lemma_plain(e1);
        <u32 as Decode>::lemma_plain(e2);
        <u32 as Decode>::lemma_unamb(v1.0, v2.0, e1, e2);
        assert(e1 == e2);
        assert(v1 == LabelIdx(v1.0) && v2 == LabelIdx(v2.0));
    }

    proof fn lemma_covers(v: Self::V, e: Seq<u8>) {
        assert(Self::spec_wf(v) && Self::spec_enc(v) + e == Self::spec_enc(v) + e
            && Self::tail_stop(e));
    }

    #[verifier::rlimit(100)]
    fn decode(buffer: &[u8]) -> (r: DecodeResult<Self>) {
        let cur0 = buffer;
        let (f0, cur1) = match <u32 as Decode>::decode(cur0) {
            Ok(p) => p,
            Err(_) => {
                proof {
                    if Self::complete() && Self::dec_ok(buffer@) {
                        lemma_err_label_idx_label_idx_0_fail(buffer@, cur0@);
                    }
                }
                return Err(DecodeError::Error);
            },
        };
        assert(buffer@ =~= <u32 as Encode>::spec_enc(f0.deep_view()) + cur1@);
        let result = LabelIdx(f0);
        proof {
            assert(Self::spec_enc(result.deep_view()) =~= <u32 as Encode>::spec_enc(f0.deep_view()));
            assert(buffer@ =~= Self::spec_enc(result.deep_view()) + cur1@);
            if Self::complete() {
                assert(Self::dec_ok(buffer@)) by {
                    assert(Self::spec_wf(result.deep_view()) && buffer@
                        == Self::spec_enc(result.deep_view()) + cur1@
                        && Self::tail_stop(cur1@));
                }
            }
        }
        Ok((result, cur1))
    }
}

/// What a claimed parse of `LabelIdx` says about the bytes at this point.
#[verifier::rlimit(100)]
proof fn lemma_err_label_idx_label_idx_0_fail(buffer: Seq<u8>, c0: Seq<u8>)
    requires
        <LabelIdx as Decode>::complete(),
        <LabelIdx as Decode>::dec_ok(buffer),
        c0 == buffer,
    ensures
        <u32 as Decode>::dec_ok(c0),
{
    let (w, e) = choose|w: LabelIdx, e: Seq<u8>|
        <LabelIdx as Encode>::spec_wf(w) && buffer == <LabelIdx as Encode>::spec_enc(w)
            + e && <LabelIdx as Decode>::tail_stop(e);
    assert(buffer =~= <u32 as Encode>::spec_enc(w.0) + (e));
    assert(c0 == <u32 as Encode>::spec_enc(w.0) + (e));
    <u32 as Decode>::lemma_plain(e);
    <u32 as Decode>::lemma_covers(w.0, e);
    assert(<u32 as Decode>::dec_ok(c0));
}

/// `LocalIdx` non-terminal of the binary grammar.
#[derive(Debug, PartialEq)]
pub struct LocalIdx(pub u32);

impl DeepView for LocalIdx {
    type V = LocalIdx;

    open spec fn deep_view(&self) -> LocalIdx {
        *self
    }
}

impl Encode for LocalIdx {
    open spec fn spec_enc(v: LocalIdx) -> Seq<u8> {
        <u32 as Encode>::spec_enc(v.0)
    }

    open spec fn spec_wf(v: LocalIdx) -> bool {
        <u32 as Encode>::spec_wf(v.0)
    }

    #[verifier::rlimit(100)]
    fn encode(&self, buffer: &mut Vec<u8>) {
        self.0.encode(buffer);
        assert(buffer@ =~= old(buffer)@ + <u32 as Encode>::spec_enc(self.0.deep_view()));
        assert(buffer@ =~= old(buffer)@ + Self::spec_enc(self.deep_view()));
    }
}

impl Decode for LocalIdx {
    open spec fn complete() -> bool {
        <u32 as Decode>::complete()
    }

    #[verifier::rlimit(100)]
    proof fn lemma_plain(s: Seq<u8>) {
        assert forall|v: LocalIdx| Self::spec_enc(v).len() >= 1 by {
            <u32 as Decode>::lemma_plain(s);
            assert(Self::spec_enc(v) =~= <u32 as Encode>::spec_enc(v.0));
        }
        if Self::dec_ok(Seq::<u8>::empty()) {
            let (v, e) = choose|v: LocalIdx, e: Seq<u8>|
                Self::spec_wf(v) && Seq::<u8>::empty() == Self::spec_enc(v) + e
                    && Self::tail_stop(e);
            assert(Self::spec_enc(v).len() >= 1);
            assert(false);
        }
    }

    #[verifier::rlimit(100)]
    proof fn lemma_unamb(v1: LocalIdx, v2: LocalIdx, e1: Seq<u8>, e2: Seq<u8>) {
        assert(Self::spec_enc(v1) + e1 =~= <u32 as Encode>::spec_enc(v1.0) + (e1));
        assert(Self::spec_enc(v2) + e2 =~= <u32 as Encode>::spec_enc(v2.0) + (e2));
        <u32 as Decode>::lemma_plain(e1);
        <u32 as Decode>::lemma_plain(e2);
        <u32 as Decode>::lemma_unamb(v1.0, v2.0, e1, e2);
        assert(e1 == e2);
        assert(v1 == LocalIdx(v1.0) && v2 == LocalIdx(v2.0));
    }

    proof fn lemma_covers(v: Self::V, e: Seq<u8>) {
        assert(Self::spec_wf(v) && Self::spec_enc(v) + e == Self::spec_enc(v) + e
            && Self::tail_stop(e));
    }

    #[verifier::rlimit(100)]
    fn decode(buffer: &[u8]) -> (r: DecodeResult<Self>) {
        let cur0 = buffer;
        let (f0, cur1) = match <u32 as Decode>::decode(cur0) {
            Ok(p) => p,
            Err(_) => {
                proof {
                    if Self::complete() && Self::dec_ok(buffer@) {
                        lemma_err_local_idx_local_idx_0_fail(buffer@, cur0@);
                    }
                }
                return Err(DecodeError::Error);
            },
        };
        assert(buffer@ =~= <u32 as Encode>::spec_enc(f0.deep_view()) + cur1@);
        let result = LocalIdx(f0);
        proof {
            assert(Self::spec_enc(result.deep_view()) =~= <u32 as Encode>::spec_enc(f0.deep_view()));
            assert(buffer@ =~= Self::spec_enc(result.deep_view()) + cur1@);
            if Self::complete() {
                assert(Self::dec_ok(buffer@)) by {
                    assert(Self::spec_wf(result.deep_view()) && buffer@
                        == Self::spec_enc(result.deep_view()) + cur1@
                        && Self::tail_stop(cur1@));
                }
            }
        }
        Ok((result, cur1))
    }
}

/// What a claimed parse of `LocalIdx` says about the bytes at this point.
#[verifier::rlimit(100)]
proof fn lemma_err_local_idx_local_idx_0_fail(buffer: Seq<u8>, c0: Seq<u8>)
    requires
        <LocalIdx as Decode>::complete(),
        <LocalIdx as Decode>::dec_ok(buffer),
        c0 == buffer,
    ensures
        <u32 as Decode>::dec_ok(c0),
{
    let (w, e) = choose|w: LocalIdx, e: Seq<u8>|
        <LocalIdx as Encode>::spec_wf(w) && buffer == <LocalIdx as Encode>::spec_enc(w)
            + e && <LocalIdx as Decode>::tail_stop(e);
    assert(buffer =~= <u32 as Encode>::spec_enc(w.0) + (e));
    assert(c0 == <u32 as Encode>::spec_enc(w.0) + (e));
    <u32 as Decode>::lemma_plain(e);
    <u32 as Decode>::lemma_covers(w.0, e);
    assert(<u32 as Decode>::dec_ok(c0));
}

/// `ElemIdx` non-terminal of the binary grammar.
#[derive(Debug, PartialEq)]
pub struct ElemIdx(pub u32);

impl DeepView for ElemIdx {
    type V = ElemIdx;

    open spec fn deep_view(&self) -> ElemIdx {
        *self
    }
}

impl Encode for ElemIdx {
    open spec fn spec_enc(v: ElemIdx) -> Seq<u8> {
        <u32 as Encode>::spec_enc(v.0)
    }

    open spec fn spec_wf(v: ElemIdx) -> bool {
        <u32 as Encode>::spec_wf(v.0)
    }

    #[verifier::rlimit(100)]
    fn encode(&self, buffer: &mut Vec<u8>) {
        self.0.encode(buffer);
        assert(buffer@ =~= old(buffer)@ + <u32 as Encode>::spec_enc(self.0.deep_view()));
        assert(buffer@ =~= old(buffer)@ + Self::spec_enc(self.deep_view()));
    }
}

impl Decode for ElemIdx {
    open spec fn complete() -> bool {
        <u32 as Decode>::complete()
    }

    #[verifier::rlimit(100)]
    proof fn lemma_plain(s: Seq<u8>) {
        assert forall|v: ElemIdx| Self::spec_enc(v).len() >= 1 by {
            <u32 as Decode>::lemma_plain(s);
            assert(Self::spec_enc(v) =~= <u32 as Encode>::spec_enc(v.0));
        }
        if Self::dec_ok(Seq::<u8>::empty()) {
            let (v, e) = choose|v: ElemIdx, e: Seq<u8>|
                Self::spec_wf(v) && Seq::<u8>::empty() == Self::spec_enc(v) + e
                    && Self::tail_stop(e);
            assert(Self::spec_enc(v).len() >= 1);
            assert(false);
        }
    }

    #[verifier::rlimit(100)]
    proof fn lemma_unamb(v1: ElemIdx, v2: ElemIdx, e1: Seq<u8>, e2: Seq<u8>) {
        assert(Self::spec_enc(v1) + e1 =~= <u32 as Encode>::spec_enc(v1.0) + (e1));
        assert(Self::spec_enc(v2) + e2 =~= <u32 as Encode>::spec_enc(v2.0) + (e2));
        <u32 as Decode>::lemma_plain(e1);
        <u32 as Decode>::lemma_plain(e2);
        <u32 as Decode>::lemma_unamb(v1.0, v2.0, e1, e2);
        assert(e1 == e2);
        assert(v1 == ElemIdx(v1.0) && v2 == ElemIdx(v2.0));
    }

    proof fn lemma_covers(v: Self::V, e: Seq<u8>) {
        assert(Self::spec_wf(v) && Self::spec_enc(v) + e == Self::spec_enc(v) + e
            && Self::tail_stop(e));
    }

    #[verifier::rlimit(100)]
    fn decode(buffer: &[u8]) -> (r: DecodeResult<Self>) {
        let cur0 = buffer;
        let (f0, cur1) = match <u32 as Decode>::decode(cur0) {
            Ok(p) => p,
            Err(_) => {
                proof {
                    if Self::complete() && Self::dec_ok(buffer@) {
                        lemma_err_elem_idx_elem_idx_0_fail(buffer@, cur0@);
                    }
                }
                return Err(DecodeError::Error);
            },
        };
        assert(buffer@ =~= <u32 as Encode>::spec_enc(f0.deep_view()) + cur1@);
        let result = ElemIdx(f0);
        proof {
            assert(Self::spec_enc(result.deep_view()) =~= <u32 as Encode>::spec_enc(f0.deep_view()));
            assert(buffer@ =~= Self::spec_enc(result.deep_view()) + cur1@);
            if Self::complete() {
                assert(Self::dec_ok(buffer@)) by {
                    assert(Self::spec_wf(result.deep_view()) && buffer@
                        == Self::spec_enc(result.deep_view()) + cur1@
                        && Self::tail_stop(cur1@));
                }
            }
        }
        Ok((result, cur1))
    }
}

/// What a claimed parse of `ElemIdx` says about the bytes at this point.
#[verifier::rlimit(100)]
proof fn lemma_err_elem_idx_elem_idx_0_fail(buffer: Seq<u8>, c0: Seq<u8>)
    requires
        <ElemIdx as Decode>::complete(),
        <ElemIdx as Decode>::dec_ok(buffer),
        c0 == buffer,
    ensures
        <u32 as Decode>::dec_ok(c0),
{
    let (w, e) = choose|w: ElemIdx, e: Seq<u8>|
        <ElemIdx as Encode>::spec_wf(w) && buffer == <ElemIdx as Encode>::spec_enc(w)
            + e && <ElemIdx as Decode>::tail_stop(e);
    assert(buffer =~= <u32 as Encode>::spec_enc(w.0) + (e));
    assert(c0 == <u32 as Encode>::spec_enc(w.0) + (e));
    <u32 as Decode>::lemma_plain(e);
    <u32 as Decode>::lemma_covers(w.0, e);
    assert(<u32 as Decode>::dec_ok(c0));
}

/// `DataIdx` non-terminal of the binary grammar.
#[derive(Debug, PartialEq)]
pub struct DataIdx(pub u32);

impl DeepView for DataIdx {
    type V = DataIdx;

    open spec fn deep_view(&self) -> DataIdx {
        *self
    }
}

impl Encode for DataIdx {
    open spec fn spec_enc(v: DataIdx) -> Seq<u8> {
        <u32 as Encode>::spec_enc(v.0)
    }

    open spec fn spec_wf(v: DataIdx) -> bool {
        <u32 as Encode>::spec_wf(v.0)
    }

    #[verifier::rlimit(100)]
    fn encode(&self, buffer: &mut Vec<u8>) {
        self.0.encode(buffer);
        assert(buffer@ =~= old(buffer)@ + <u32 as Encode>::spec_enc(self.0.deep_view()));
        assert(buffer@ =~= old(buffer)@ + Self::spec_enc(self.deep_view()));
    }
}

impl Decode for DataIdx {
    open spec fn complete() -> bool {
        <u32 as Decode>::complete()
    }

    #[verifier::rlimit(100)]
    proof fn lemma_plain(s: Seq<u8>) {
        assert forall|v: DataIdx| Self::spec_enc(v).len() >= 1 by {
            <u32 as Decode>::lemma_plain(s);
            assert(Self::spec_enc(v) =~= <u32 as Encode>::spec_enc(v.0));
        }
        if Self::dec_ok(Seq::<u8>::empty()) {
            let (v, e) = choose|v: DataIdx, e: Seq<u8>|
                Self::spec_wf(v) && Seq::<u8>::empty() == Self::spec_enc(v) + e
                    && Self::tail_stop(e);
            assert(Self::spec_enc(v).len() >= 1);
            assert(false);
        }
    }

    #[verifier::rlimit(100)]
    proof fn lemma_unamb(v1: DataIdx, v2: DataIdx, e1: Seq<u8>, e2: Seq<u8>) {
        assert(Self::spec_enc(v1) + e1 =~= <u32 as Encode>::spec_enc(v1.0) + (e1));
        assert(Self::spec_enc(v2) + e2 =~= <u32 as Encode>::spec_enc(v2.0) + (e2));
        <u32 as Decode>::lemma_plain(e1);
        <u32 as Decode>::lemma_plain(e2);
        <u32 as Decode>::lemma_unamb(v1.0, v2.0, e1, e2);
        assert(e1 == e2);
        assert(v1 == DataIdx(v1.0) && v2 == DataIdx(v2.0));
    }

    proof fn lemma_covers(v: Self::V, e: Seq<u8>) {
        assert(Self::spec_wf(v) && Self::spec_enc(v) + e == Self::spec_enc(v) + e
            && Self::tail_stop(e));
    }

    #[verifier::rlimit(100)]
    fn decode(buffer: &[u8]) -> (r: DecodeResult<Self>) {
        let cur0 = buffer;
        let (f0, cur1) = match <u32 as Decode>::decode(cur0) {
            Ok(p) => p,
            Err(_) => {
                proof {
                    if Self::complete() && Self::dec_ok(buffer@) {
                        lemma_err_data_idx_data_idx_0_fail(buffer@, cur0@);
                    }
                }
                return Err(DecodeError::Error);
            },
        };
        assert(buffer@ =~= <u32 as Encode>::spec_enc(f0.deep_view()) + cur1@);
        let result = DataIdx(f0);
        proof {
            assert(Self::spec_enc(result.deep_view()) =~= <u32 as Encode>::spec_enc(f0.deep_view()));
            assert(buffer@ =~= Self::spec_enc(result.deep_view()) + cur1@);
            if Self::complete() {
                assert(Self::dec_ok(buffer@)) by {
                    assert(Self::spec_wf(result.deep_view()) && buffer@
                        == Self::spec_enc(result.deep_view()) + cur1@
                        && Self::tail_stop(cur1@));
                }
            }
        }
        Ok((result, cur1))
    }
}

/// What a claimed parse of `DataIdx` says about the bytes at this point.
#[verifier::rlimit(100)]
proof fn lemma_err_data_idx_data_idx_0_fail(buffer: Seq<u8>, c0: Seq<u8>)
    requires
        <DataIdx as Decode>::complete(),
        <DataIdx as Decode>::dec_ok(buffer),
        c0 == buffer,
    ensures
        <u32 as Decode>::dec_ok(c0),
{
    let (w, e) = choose|w: DataIdx, e: Seq<u8>|
        <DataIdx as Encode>::spec_wf(w) && buffer == <DataIdx as Encode>::spec_enc(w)
            + e && <DataIdx as Decode>::tail_stop(e);
    assert(buffer =~= <u32 as Encode>::spec_enc(w.0) + (e));
    assert(c0 == <u32 as Encode>::spec_enc(w.0) + (e));
    <u32 as Decode>::lemma_plain(e);
    <u32 as Decode>::lemma_covers(w.0, e);
    assert(<u32 as Decode>::dec_ok(c0));
}

/// `MemArg` non-terminal of the binary grammar.
#[derive(Debug, PartialEq)]
pub struct MemArg(pub u32, pub u32);

impl DeepView for MemArg {
    type V = MemArg;

    open spec fn deep_view(&self) -> MemArg {
        *self
    }
}

impl Encode for MemArg {
    open spec fn spec_enc(v: MemArg) -> Seq<u8> {
        <u32 as Encode>::spec_enc(v.0) + <u32 as Encode>::spec_enc(v.1)
    }

    open spec fn spec_wf(v: MemArg) -> bool {
        <u32 as Encode>::spec_wf(v.0) && <u32 as Encode>::spec_wf(v.1)
    }

    #[verifier::rlimit(100)]
    fn encode(&self, buffer: &mut Vec<u8>) {
        self.0.encode(buffer);
        assert(buffer@ =~= old(buffer)@ + <u32 as Encode>::spec_enc(self.0.deep_view()));
        self.1.encode(buffer);
        assert(buffer@ =~= old(buffer)@ + <u32 as Encode>::spec_enc(self.0.deep_view()) + <u32 as Encode>::spec_enc(self.1.deep_view()));
        assert(buffer@ =~= old(buffer)@ + Self::spec_enc(self.deep_view()));
    }
}

impl Decode for MemArg {
    open spec fn complete() -> bool {
        <u32 as Decode>::complete()
    }

    #[verifier::rlimit(100)]
    proof fn lemma_plain(s: Seq<u8>) {
        assert forall|v: MemArg| Self::spec_enc(v).len() >= 1 by {
            <u32 as Decode>::lemma_plain(s);
            assert(Self::spec_enc(v) =~= <u32 as Encode>::spec_enc(v.0) + <u32 as Encode>::spec_enc(v.1));
        }
        if Self::dec_ok(Seq::<u8>::empty()) {
            let (v, e) = choose|v: MemArg, e: Seq<u8>|
                Self::spec_wf(v) && Seq::<u8>::empty() == Self::spec_enc(v) + e
                    && Self::tail_stop(e);
            assert(Self::spec_enc(v).len() >= 1);
            assert(false);
        }
    }

    #[verifier::rlimit(100)]
    proof fn lemma_unamb(v1: MemArg, v2: MemArg, e1: Seq<u8>, e2: Seq<u8>) {
        assert(Self::spec_enc(v1) + e1 =~= <u32 as Encode>::spec_enc(v1.0) + (<u32 as Encode>::spec_enc(v1.1) + (e1)));
        assert(Self::spec_enc(v2) + e2 =~= <u32 as Encode>::spec_enc(v2.0) + (<u32 as Encode>::spec_enc(v2.1) + (e2)));
        <u32 as Decode>::lemma_plain(<u32 as Encode>::spec_enc(v1.1) + (e1));
        <u32 as Decode>::lemma_plain(<u32 as Encode>::spec_enc(v2.1) + (e2));
        <u32 as Decode>::lemma_unamb(v1.0, v2.0, <u32 as Encode>::spec_enc(v1.1) + (e1), <u32 as Encode>::spec_enc(v2.1) + (e2));
        <u32 as Decode>::lemma_plain(e1);
        <u32 as Decode>::lemma_plain(e2);
        <u32 as Decode>::lemma_unamb(v1.1, v2.1, e1, e2);
        assert(e1 == e2);
        assert(v1 == MemArg(v1.0, v1.1) && v2 == MemArg(v2.0, v2.1));
    }

    proof fn lemma_covers(v: Self::V, e: Seq<u8>) {
        assert(Self::spec_wf(v) && Self::spec_enc(v) + e == Self::spec_enc(v) + e
            && Self::tail_stop(e));
    }

    #[verifier::rlimit(100)]
    fn decode(buffer: &[u8]) -> (r: DecodeResult<Self>) {
        let cur0 = buffer;
        let (f0, cur1) = match <u32 as Decode>::decode(cur0) {
            Ok(p) => p,
            Err(_) => {
                proof {
                    if Self::complete() && Self::dec_ok(buffer@) {
                        lemma_err_mem_arg_mem_arg_0_fail(buffer@, cur0@);
                    }
                }
                return Err(DecodeError::Error);
            },
        };
        assert(buffer@ =~= <u32 as Encode>::spec_enc(f0.deep_view()) + cur1@);
        let (f1, cur2) = match <u32 as Decode>::decode(cur1) {
            Ok(p) => p,
            Err(_) => {
                proof {
                    if Self::complete() && Self::dec_ok(buffer@) {
                        lemma_err_mem_arg_mem_arg_1_fail(buffer@, cur0@, cur1@, f0.deep_view());
                    }
                }
                return Err(DecodeError::Error);
            },
        };
        assert(buffer@ =~= <u32 as Encode>::spec_enc(f0.deep_view()) + <u32 as Encode>::spec_enc(f1.deep_view()) + cur2@);
        let result = MemArg(f0, f1);
        proof {
            assert(Self::spec_enc(result.deep_view()) =~= <u32 as Encode>::spec_enc(f0.deep_view()) + <u32 as Encode>::spec_enc(f1.deep_view()));
            assert(buffer@ =~= Self::spec_enc(result.deep_view()) + cur2@);
            if Self::complete() {
                assert(Self::dec_ok(buffer@)) by {
                    assert(Self::spec_wf(result.deep_view()) && buffer@
                        == Self::spec_enc(result.deep_view()) + cur2@
                        && Self::tail_stop(cur2@));
                }
            }
        }
        Ok((result, cur2))
    }
}

/// What a claimed parse of `MemArg` says about the bytes at this point.
#[verifier::rlimit(100)]
proof fn lemma_err_mem_arg_mem_arg_0_fail(buffer: Seq<u8>, c0: Seq<u8>)
    requires
        <MemArg as Decode>::complete(),
        <MemArg as Decode>::dec_ok(buffer),
        c0 == buffer,
    ensures
        <u32 as Decode>::dec_ok(c0),
{
    let (w, e) = choose|w: MemArg, e: Seq<u8>|
        <MemArg as Encode>::spec_wf(w) && buffer == <MemArg as Encode>::spec_enc(w)
            + e && <MemArg as Decode>::tail_stop(e);
    assert(buffer =~= <u32 as Encode>::spec_enc(w.0) + (<u32 as Encode>::spec_enc(w.1) + (e)));
    assert(c0 == <u32 as Encode>::spec_enc(w.0) + (<u32 as Encode>::spec_enc(w.1) + (e)));
    <u32 as Decode>::lemma_plain(<u32 as Encode>::spec_enc(w.1) + (e));
    <u32 as Decode>::lemma_covers(w.0, <u32 as Encode>::spec_enc(w.1) + (e));
    assert(<u32 as Decode>::dec_ok(c0));
}

/// What a claimed parse of `MemArg` says about the bytes at this point.
#[verifier::rlimit(100)]
proof fn lemma_err_mem_arg_mem_arg_1_fail(buffer: Seq<u8>, c0: Seq<u8>, c1: Seq<u8>, w0: u32)
    requires
        <MemArg as Decode>::complete(),
        <MemArg as Decode>::dec_ok(buffer),
        c0 == buffer,
        c0 == <u32 as Encode>::spec_enc(w0) + c1,
        <u32 as Encode>::spec_wf(w0),
        <u32 as Decode>::tail_stop(c1),
    ensures
        <u32 as Decode>::dec_ok(c1),
{
    let (w, e) = choose|w: MemArg, e: Seq<u8>|
        <MemArg as Encode>::spec_wf(w) && buffer == <MemArg as Encode>::spec_enc(w)
            + e && <MemArg as Decode>::tail_stop(e);
    assert(buffer =~= <u32 as Encode>::spec_enc(w.0) + (<u32 as Encode>::spec_enc(w.1) + (e)));
    <u32 as Decode>::lemma_plain(c1);
    <u32 as Decode>::lemma_plain(<u32 as Encode>::spec_enc(w.1) + (e));
    <u32 as Decode>::lemma_unamb(w0, w.0, c1, <u32 as Encode>::spec_enc(w.1) + (e));
    assert(c1 == <u32 as Encode>::spec_enc(w.1) + (e));
    assert(c1 == <u32 as Encode>::spec_enc(w.1) + (e));
    <u32 as Decode>::lemma_plain(e);
    <u32 as Decode>::lemma_covers(w.1, e);
    assert(<u32 as Decode>::dec_ok(c1));
}

/// `Locals` non-terminal of the binary grammar.
#[derive(Debug, PartialEq)]
pub struct Locals(pub u32, pub ValType);

impl DeepView for Locals {
    type V = Locals;

    open spec fn deep_view(&self) -> Locals {
        *self
    }
}

impl Encode for Locals {
    open spec fn spec_enc(v: Locals) -> Seq<u8> {
        <u32 as Encode>::spec_enc(v.0) + <ValType as Encode>::spec_enc(v.1)
    }

    open spec fn spec_wf(v: Locals) -> bool {
        <u32 as Encode>::spec_wf(v.0) && <ValType as Encode>::spec_wf(v.1)
    }

    #[verifier::rlimit(100)]
    fn encode(&self, buffer: &mut Vec<u8>) {
        self.0.encode(buffer);
        assert(buffer@ =~= old(buffer)@ + <u32 as Encode>::spec_enc(self.0.deep_view()));
        self.1.encode(buffer);
        assert(buffer@ =~= old(buffer)@ + <u32 as Encode>::spec_enc(self.0.deep_view()) + <ValType as Encode>::spec_enc(self.1.deep_view()));
        assert(buffer@ =~= old(buffer)@ + Self::spec_enc(self.deep_view()));
    }
}

impl Decode for Locals {
    open spec fn complete() -> bool {
        <u32 as Decode>::complete() && <ValType as Decode>::complete()
    }

    #[verifier::rlimit(100)]
    proof fn lemma_plain(s: Seq<u8>) {
        assert forall|v: Locals| Self::spec_enc(v).len() >= 1 by {
            <u32 as Decode>::lemma_plain(s);
            assert(Self::spec_enc(v) =~= <u32 as Encode>::spec_enc(v.0) + <ValType as Encode>::spec_enc(v.1));
        }
        if Self::dec_ok(Seq::<u8>::empty()) {
            let (v, e) = choose|v: Locals, e: Seq<u8>|
                Self::spec_wf(v) && Seq::<u8>::empty() == Self::spec_enc(v) + e
                    && Self::tail_stop(e);
            assert(Self::spec_enc(v).len() >= 1);
            assert(false);
        }
    }

    #[verifier::rlimit(100)]
    proof fn lemma_unamb(v1: Locals, v2: Locals, e1: Seq<u8>, e2: Seq<u8>) {
        assert(Self::spec_enc(v1) + e1 =~= <u32 as Encode>::spec_enc(v1.0) + (<ValType as Encode>::spec_enc(v1.1) + (e1)));
        assert(Self::spec_enc(v2) + e2 =~= <u32 as Encode>::spec_enc(v2.0) + (<ValType as Encode>::spec_enc(v2.1) + (e2)));
        <u32 as Decode>::lemma_plain(<ValType as Encode>::spec_enc(v1.1) + (e1));
        <u32 as Decode>::lemma_plain(<ValType as Encode>::spec_enc(v2.1) + (e2));
        <u32 as Decode>::lemma_unamb(v1.0, v2.0, <ValType as Encode>::spec_enc(v1.1) + (e1), <ValType as Encode>::spec_enc(v2.1) + (e2));
        <ValType as Decode>::lemma_plain(e1);
        <ValType as Decode>::lemma_plain(e2);
        <ValType as Decode>::lemma_unamb(v1.1, v2.1, e1, e2);
        assert(e1 == e2);
        assert(v1 == Locals(v1.0, v1.1) && v2 == Locals(v2.0, v2.1));
    }

    proof fn lemma_covers(v: Self::V, e: Seq<u8>) {
        assert(Self::spec_wf(v) && Self::spec_enc(v) + e == Self::spec_enc(v) + e
            && Self::tail_stop(e));
    }

    #[verifier::rlimit(100)]
    fn decode(buffer: &[u8]) -> (r: DecodeResult<Self>) {
        let cur0 = buffer;
        let (f0, cur1) = match <u32 as Decode>::decode(cur0) {
            Ok(p) => p,
            Err(_) => {
                proof {
                    if Self::complete() && Self::dec_ok(buffer@) {
                        lemma_err_locals_locals_0_fail(buffer@, cur0@);
                    }
                }
                return Err(DecodeError::Error);
            },
        };
        assert(buffer@ =~= <u32 as Encode>::spec_enc(f0.deep_view()) + cur1@);
        let (f1, cur2) = match <ValType as Decode>::decode(cur1) {
            Ok(p) => p,
            Err(_) => {
                proof {
                    if Self::complete() && Self::dec_ok(buffer@) {
                        lemma_err_locals_locals_1_fail(buffer@, cur0@, cur1@, f0.deep_view());
                    }
                }
                return Err(DecodeError::Error);
            },
        };
        assert(buffer@ =~= <u32 as Encode>::spec_enc(f0.deep_view()) + <ValType as Encode>::spec_enc(f1.deep_view()) + cur2@);
        let result = Locals(f0, f1);
        proof {
            assert(Self::spec_enc(result.deep_view()) =~= <u32 as Encode>::spec_enc(f0.deep_view()) + <ValType as Encode>::spec_enc(f1.deep_view()));
            assert(buffer@ =~= Self::spec_enc(result.deep_view()) + cur2@);
            if Self::complete() {
                assert(Self::dec_ok(buffer@)) by {
                    assert(Self::spec_wf(result.deep_view()) && buffer@
                        == Self::spec_enc(result.deep_view()) + cur2@
                        && Self::tail_stop(cur2@));
                }
            }
        }
        Ok((result, cur2))
    }
}

/// What a claimed parse of `Locals` says about the bytes at this point.
#[verifier::rlimit(100)]
proof fn lemma_err_locals_locals_0_fail(buffer: Seq<u8>, c0: Seq<u8>)
    requires
        <Locals as Decode>::complete(),
        <Locals as Decode>::dec_ok(buffer),
        c0 == buffer,
    ensures
        <u32 as Decode>::dec_ok(c0),
{
    let (w, e) = choose|w: Locals, e: Seq<u8>|
        <Locals as Encode>::spec_wf(w) && buffer == <Locals as Encode>::spec_enc(w)
            + e && <Locals as Decode>::tail_stop(e);
    assert(buffer =~= <u32 as Encode>::spec_enc(w.0) + (<ValType as Encode>::spec_enc(w.1) + (e)));
    assert(c0 == <u32 as Encode>::spec_enc(w.0) + (<ValType as Encode>::spec_enc(w.1) + (e)));
    <u32 as Decode>::lemma_plain(<ValType as Encode>::spec_enc(w.1) + (e));
    <u32 as Decode>::lemma_covers(w.0, <ValType as Encode>::spec_enc(w.1) + (e));
    assert(<u32 as Decode>::dec_ok(c0));
}

/// What a claimed parse of `Locals` says about the bytes at this point.
#[verifier::rlimit(100)]
proof fn lemma_err_locals_locals_1_fail(buffer: Seq<u8>, c0: Seq<u8>, c1: Seq<u8>, w0: u32)
    requires
        <Locals as Decode>::complete(),
        <Locals as Decode>::dec_ok(buffer),
        c0 == buffer,
        c0 == <u32 as Encode>::spec_enc(w0) + c1,
        <u32 as Encode>::spec_wf(w0),
        <u32 as Decode>::tail_stop(c1),
    ensures
        <ValType as Decode>::dec_ok(c1),
{
    let (w, e) = choose|w: Locals, e: Seq<u8>|
        <Locals as Encode>::spec_wf(w) && buffer == <Locals as Encode>::spec_enc(w)
            + e && <Locals as Decode>::tail_stop(e);
    assert(buffer =~= <u32 as Encode>::spec_enc(w.0) + (<ValType as Encode>::spec_enc(w.1) + (e)));
    <u32 as Decode>::lemma_plain(c1);
    <u32 as Decode>::lemma_plain(<ValType as Encode>::spec_enc(w.1) + (e));
    <u32 as Decode>::lemma_unamb(w0, w.0, c1, <ValType as Encode>::spec_enc(w.1) + (e));
    assert(c1 == <ValType as Encode>::spec_enc(w.1) + (e));
    assert(c1 == <ValType as Encode>::spec_enc(w.1) + (e));
    <ValType as Decode>::lemma_plain(e);
    <ValType as Decode>::lemma_covers(w.1, e);
    assert(<ValType as Decode>::dec_ok(c1));
}

/// `ElemKind` non-terminal of the binary grammar.
#[derive(Debug, PartialEq)]
pub struct ElemKind;

impl DeepView for ElemKind {
    type V = ElemKind;

    open spec fn deep_view(&self) -> ElemKind {
        *self
    }
}

impl Encode for ElemKind {
    open spec fn spec_enc(v: ElemKind) -> Seq<u8> {
        seq![0u8]
    }

    open spec fn spec_wf(v: ElemKind) -> bool {
        true
    }

    #[verifier::rlimit(100)]
    fn encode(&self, buffer: &mut Vec<u8>) {
        buffer.push(0u8);
        assert(buffer@ =~= old(buffer)@ + seq![0u8]);
        assert(buffer@ =~= old(buffer)@ + Self::spec_enc(self.deep_view()));
    }
}

impl Decode for ElemKind {
    #[verifier::rlimit(100)]
    proof fn lemma_plain(s: Seq<u8>) {
        assert forall|v: ElemKind| Self::spec_enc(v).len() >= 1 by {
            assert(Self::spec_enc(v) =~= seq![0u8]);
        }
        if Self::dec_ok(Seq::<u8>::empty()) {
            let (v, e) = choose|v: ElemKind, e: Seq<u8>|
                Self::spec_wf(v) && Seq::<u8>::empty() == Self::spec_enc(v) + e
                    && Self::tail_stop(e);
            assert(Self::spec_enc(v).len() >= 1);
            assert(false);
        }
    }

    #[verifier::rlimit(100)]
    proof fn lemma_unamb(v1: ElemKind, v2: ElemKind, e1: Seq<u8>, e2: Seq<u8>) {
        assert(Self::spec_enc(v1) + e1 =~= seq![0u8] + (e1));
        assert(Self::spec_enc(v2) + e2 =~= seq![0u8] + (e2));
        lemma_concat_cancel(seq![0u8], e1, seq![0u8], e2);
        assert(e1 == e2);
        assert(v1 == ElemKind && v2 == ElemKind);
    }

    proof fn lemma_covers(v: Self::V, e: Seq<u8>) {
        assert(Self::spec_wf(v) && Self::spec_enc(v) + e == Self::spec_enc(v) + e
            && Self::tail_stop(e));
    }

    #[verifier::rlimit(100)]
    fn decode(buffer: &[u8]) -> (r: DecodeResult<Self>) {
        let cur0 = buffer;
        let (lit0, cur1) = match <u8 as Decode>::decode(cur0) {
            Ok(p) => p,
            Err(_) => {
                proof {
                    if Self::complete() && Self::dec_ok(buffer@) {
                        lemma_err_elem_kind_elem_kind_0_nobyte(buffer@, cur0@);
                    }
                }
                return Err(DecodeError::Error);
            },
        };
        if lit0 != 0u8 {
            proof {
                if Self::complete() && Self::dec_ok(buffer@) {
                    lemma_err_elem_kind_elem_kind_0_mismatch(buffer@, cur0@);
                }
            }
            return Err(DecodeError::Error);
        }
        assert(buffer@ =~= seq![0u8] + cur1@);
        let result = ElemKind;
        proof {
            assert(Self::spec_enc(result.deep_view()) =~= seq![0u8]);
            assert(buffer@ =~= Self::spec_enc(result.deep_view()) + cur1@);
            if Self::complete() {
                assert(Self::dec_ok(buffer@)) by {
                    assert(Self::spec_wf(result.deep_view()) && buffer@
                        == Self::spec_enc(result.deep_view()) + cur1@
                        && Self::tail_stop(cur1@));
                }
            }
        }
        Ok((result, cur1))
    }
}

/// What a claimed parse of `ElemKind` says about the bytes at this point.
#[verifier::rlimit(100)]
proof fn lemma_err_elem_kind_elem_kind_0_nobyte(buffer: Seq<u8>, c0: Seq<u8>)
    requires
        <ElemKind as Decode>::complete(),
        <ElemKind as Decode>::dec_ok(buffer),
        c0 == buffer,
    ensures
        c0.len() >= 1,
{
    let (w, e) = choose|w: ElemKind, e: Seq<u8>|
        <ElemKind as Encode>::spec_wf(w) && buffer == <ElemKind as Encode>::spec_enc(w)
            + e && <ElemKind as Decode>::tail_stop(e);
    assert(buffer =~= seq![0u8] + (e));
    assert(c0 == seq![0u8] + (e));
    assert(c0.len() >= 1);
}

/// What a claimed parse of `ElemKind` says about the bytes at this point.
#[verifier::rlimit(100)]
proof fn lemma_err_elem_kind_elem_kind_0_mismatch(buffer: Seq<u8>, c0: Seq<u8>)
    requires
        <ElemKind as Decode>::complete(),
        <ElemKind as Decode>::dec_ok(buffer),
        c0 == buffer,
    ensures
        c0.len() >= 1 && c0[0] == 0u8,
{
    let (w, e) = choose|w: ElemKind, e: Seq<u8>|
        <ElemKind as Encode>::spec_wf(w) && buffer == <ElemKind as Encode>::spec_enc(w)
            + e && <ElemKind as Decode>::tail_stop(e);
    assert(buffer =~= seq![0u8] + (e));
    assert(c0 == seq![0u8] + (e));
    assert(c0[0] == 0u8);
}

/// `ImportDesc` non-terminal of the binary grammar.
#[derive(Debug, PartialEq)]
pub enum ImportDesc {
    Func(TypeIdx),
    Table(TableType),
    Mem(MemType),
    Global(GlobalType),
}

impl DeepView for ImportDesc {
    type V = ImportDesc;

    open spec fn deep_view(&self) -> ImportDesc {
        *self
    }
}

impl Encode for ImportDesc {
    open spec fn spec_enc(v: ImportDesc) -> Seq<u8> {
        match v {
            ImportDesc::Func(a0) => seq![0u8] + <TypeIdx as Encode>::spec_enc(a0),
            ImportDesc::Table(a0) => seq![1u8] + <TableType as Encode>::spec_enc(a0),
            ImportDesc::Mem(a0) => seq![2u8] + <MemType as Encode>::spec_enc(a0),
            ImportDesc::Global(a0) => seq![3u8] + <GlobalType as Encode>::spec_enc(a0),
        }
    }

    open spec fn spec_wf(v: ImportDesc) -> bool {
        match v {
            ImportDesc::Func(a0) => <TypeIdx as Encode>::spec_wf(a0),
            ImportDesc::Table(a0) => <TableType as Encode>::spec_wf(a0),
            ImportDesc::Mem(a0) => <MemType as Encode>::spec_wf(a0),
            ImportDesc::Global(a0) => <GlobalType as Encode>::spec_wf(a0),
        }
    }

    #[verifier::rlimit(100)]
    fn encode(&self, buffer: &mut Vec<u8>) {
        match self {
            ImportDesc::Func(a0) => {
                buffer.push(0u8);
                assert(buffer@ =~= old(buffer)@ + seq![0u8]);
                a0.encode(buffer);
                assert(buffer@ =~= old(buffer)@ + seq![0u8] + <TypeIdx as Encode>::spec_enc(a0.deep_view()));
            }
            ImportDesc::Table(a0) => {
                buffer.push(1u8);
                assert(buffer@ =~= old(buffer)@ + seq![1u8]);
                a0.encode(buffer);
                assert(buffer@ =~= old(buffer)@ + seq![1u8] + <TableType as Encode>::spec_enc(a0.deep_view()));
            }
            ImportDesc::Mem(a0) => {
                buffer.push(2u8);
                assert(buffer@ =~= old(buffer)@ + seq![2u8]);
                a0.encode(buffer);
                assert(buffer@ =~= old(buffer)@ + seq![2u8] + <MemType as Encode>::spec_enc(a0.deep_view()));
            }
            ImportDesc::Global(a0) => {
                buffer.push(3u8);
                assert(buffer@ =~= old(buffer)@ + seq![3u8]);
                a0.encode(buffer);
                assert(buffer@ =~= old(buffer)@ + seq![3u8] + <GlobalType as Encode>::spec_enc(a0.deep_view()));
            }
        }
        assert(buffer@ =~= old(buffer)@ + Self::spec_enc(self.deep_view()));
    }
}

/// First wire byte of each `ImportDesc` alternative: the discriminator.
pub open spec fn import_desc_op(v: ImportDesc) -> u8 {
    match v {
        ImportDesc::Func(_) => 0u8,
        ImportDesc::Table(_) => 1u8,
        ImportDesc::Mem(_) => 2u8,
        ImportDesc::Global(_) => 3u8,
    }
}

/// Every `ImportDesc` encoding starts with its discriminator byte.
pub proof fn lemma_import_desc_head(v: ImportDesc)
    ensures
        <ImportDesc as Encode>::spec_enc(v).len() >= 1,
        <ImportDesc as Encode>::spec_enc(v)[0] == import_desc_op(v),
{
    match v {
        ImportDesc::Func(a0) => {
            assert(<ImportDesc as Encode>::spec_enc(v) =~= seq![0u8] + (<TypeIdx as Encode>::spec_enc(a0)));
            assert((seq![0u8] + (<TypeIdx as Encode>::spec_enc(a0)))[0] == 0u8);
        },
        ImportDesc::Table(a0) => {
            assert(<ImportDesc as Encode>::spec_enc(v) =~= seq![1u8] + (<TableType as Encode>::spec_enc(a0)));
            assert((seq![1u8] + (<TableType as Encode>::spec_enc(a0)))[0] == 1u8);
        },
        ImportDesc::Mem(a0) => {
            assert(<ImportDesc as Encode>::spec_enc(v) =~= seq![2u8] + (<MemType as Encode>::spec_enc(a0)));
            assert((seq![2u8] + (<MemType as Encode>::spec_enc(a0)))[0] == 2u8);
        },
        ImportDesc::Global(a0) => {
            assert(<ImportDesc as Encode>::spec_enc(v) =~= seq![3u8] + (<GlobalType as Encode>::spec_enc(a0)));
            assert((seq![3u8] + (<GlobalType as Encode>::spec_enc(a0)))[0] == 3u8);
        },
    }
}

impl Decode for ImportDesc {
    open spec fn complete() -> bool {
        <TypeIdx as Decode>::complete() && <TableType as Decode>::complete() && <MemType as Decode>::complete() && <GlobalType as Decode>::complete()
    }

    #[verifier::rlimit(100)]
    proof fn lemma_plain(s: Seq<u8>) {
        assert forall|v: ImportDesc| Self::spec_enc(v).len() >= 1 by {
            lemma_import_desc_head(v);
        }
        if Self::dec_ok(Seq::<u8>::empty()) {
            let (v, e) = choose|v: ImportDesc, e: Seq<u8>|
                Self::spec_wf(v) && Seq::<u8>::empty() == Self::spec_enc(v) + e
                    && Self::tail_stop(e);
            assert(Self::spec_enc(v).len() >= 1);
            assert(false);
        }
    }

    #[verifier::rlimit(100)]
    proof fn lemma_unamb(v1: ImportDesc, v2: ImportDesc, e1: Seq<u8>, e2: Seq<u8>) {
        lemma_import_desc_head(v1);
        lemma_import_desc_head(v2);
        assert((Self::spec_enc(v1) + e1)[0] == Self::spec_enc(v1)[0]);
        assert((Self::spec_enc(v2) + e2)[0] == Self::spec_enc(v2)[0]);
        assert(import_desc_op(v1) == import_desc_op(v2));
        match v1 {
            ImportDesc::Func(a0) => {
                match v2 {
                    ImportDesc::Func(b0) => {
                        assert(Self::spec_enc(v1) + e1 =~= seq![0u8] + (<TypeIdx as Encode>::spec_enc(a0) + (e1)));
                        assert(Self::spec_enc(v2) + e2 =~= seq![0u8] + (<TypeIdx as Encode>::spec_enc(b0) + (e2)));
                        lemma_concat_cancel(seq![0u8], <TypeIdx as Encode>::spec_enc(a0) + (e1), seq![0u8], <TypeIdx as Encode>::spec_enc(b0) + (e2));
                        <TypeIdx as Decode>::lemma_plain(e1);
                        <TypeIdx as Decode>::lemma_plain(e2);
                        <TypeIdx as Decode>::lemma_unamb(a0, b0, e1, e2);
                        assert(e1 == e2);
                        assert(a0 == b0);
                        assert(v1 == v2);
                    },
                    _ => {
                        assert(false);
                    },
                }
            },
            ImportDesc::Table(a0) => {
                match v2 {
                    ImportDesc::Table(b0) => {
                        assert(Self::spec_enc(v1) + e1 =~= seq![1u8] + (<TableType as Encode>::spec_enc(a0) + (e1)));
                        assert(Self::spec_enc(v2) + e2 =~= seq![1u8] + (<TableType as Encode>::spec_enc(b0) + (e2)));
                        lemma_concat_cancel(seq![1u8], <TableType as Encode>::spec_enc(a0) + (e1), seq![1u8], <TableType as Encode>::spec_enc(b0) + (e2));
                        <TableType as Decode>::lemma_plain(e1);
                        <TableType as Decode>::lemma_plain(e2);
                        <TableType as Decode>::lemma_unamb(a0, b0, e1, e2);
                        assert(e1 == e2);
                        assert(a0 == b0);
                        assert(v1 == v2);
                    },
                    _ => {
                        assert(false);
                    },
                }
            },
            ImportDesc::Mem(a0) => {
                match v2 {
                    ImportDesc::Mem(b0) => {
                        assert(Self::spec_enc(v1) + e1 =~= seq![2u8] + (<MemType as Encode>::spec_enc(a0) + (e1)));
                        assert(Self::spec_enc(v2) + e2 =~= seq![2u8] + (<MemType as Encode>::spec_enc(b0) + (e2)));
                        lemma_concat_cancel(seq![2u8], <MemType as Encode>::spec_enc(a0) + (e1), seq![2u8], <MemType as Encode>::spec_enc(b0) + (e2));
                        <MemType as Decode>::lemma_plain(e1);
                        <MemType as Decode>::lemma_plain(e2);
                        <MemType as Decode>::lemma_unamb(a0, b0, e1, e2);
                        assert(e1 == e2);
                        assert(a0 == b0);
                        assert(v1 == v2);
                    },
                    _ => {
                        assert(false);
                    },
                }
            },
            ImportDesc::Global(a0) => {
                match v2 {
                    ImportDesc::Global(b0) => {
                        assert(Self::spec_enc(v1) + e1 =~= seq![3u8] + (<GlobalType as Encode>::spec_enc(a0) + (e1)));
                        assert(Self::spec_enc(v2) + e2 =~= seq![3u8] + (<GlobalType as Encode>::spec_enc(b0) + (e2)));
                        lemma_concat_cancel(seq![3u8], <GlobalType as Encode>::spec_enc(a0) + (e1), seq![3u8], <GlobalType as Encode>::spec_enc(b0) + (e2));
                        <GlobalType as Decode>::lemma_plain(e1);
                        <GlobalType as Decode>::lemma_plain(e2);
                        <GlobalType as Decode>::lemma_unamb(a0, b0, e1, e2);
                        assert(e1 == e2);
                        assert(a0 == b0);
                        assert(v1 == v2);
                    },
                    _ => {
                        assert(false);
                    },
                }
            },
        }
    }

    proof fn lemma_covers(v: Self::V, e: Seq<u8>) {
        assert(Self::spec_wf(v) && Self::spec_enc(v) + e == Self::spec_enc(v) + e
            && Self::tail_stop(e));
    }

    #[verifier::rlimit(100)]
    fn decode(buffer: &[u8]) -> (r: DecodeResult<Self>) {
        if buffer.len() == 0 {
            proof {
                if Self::complete() && Self::dec_ok(buffer@) {
                    let (w, e) = choose|w: ImportDesc, e: Seq<u8>|
                        Self::spec_wf(w) && buffer@ == Self::spec_enc(w) + e
                            && Self::tail_stop(e);
                    lemma_import_desc_head(w);
                    assert(false);
                }
            }
            return Err(DecodeError::Error);
        }
        let b0 = buffer[0];
        match b0 {
            0u8 => {
                let cur0 = buffer;
                let (lit0, cur1) = match <u8 as Decode>::decode(cur0) {
                    Ok(p) => p,
                    Err(_) => {
                        proof {
                            assert(cur0@.len() >= 1);
                            assert(false);
                        }
                        return Err(DecodeError::Error);
                    },
                };
                if lit0 != 0u8 {
                    proof {
                        assert(cur0@[0] == lit0);
                        assert(false);
                    }
                    return Err(DecodeError::Error);
                }
                assert(buffer@ =~= seq![0u8] + cur1@);
                let (f1, cur2) = match <TypeIdx as Decode>::decode(cur1) {
                    Ok(p) => p,
                    Err(_) => {
                        proof {
                            if Self::complete() && Self::dec_ok(buffer@) {
                                lemma_err_import_desc_func_1_fail(buffer@, cur0@, cur1@);
                            }
                        }
                        return Err(DecodeError::Error);
                    },
                };
                assert(buffer@ =~= seq![0u8] + <TypeIdx as Encode>::spec_enc(f1.deep_view()) + cur2@);
                let result = ImportDesc::Func(f1);
                proof {
                    assert(Self::spec_enc(result.deep_view()) =~= seq![0u8] + <TypeIdx as Encode>::spec_enc(f1.deep_view()));
                    assert(buffer@ =~= Self::spec_enc(result.deep_view()) + cur2@);
                    if Self::complete() {
                        assert(Self::dec_ok(buffer@)) by {
                            assert(Self::spec_wf(result.deep_view()) && buffer@
                                == Self::spec_enc(result.deep_view()) + cur2@
                                && Self::tail_stop(cur2@));
                        }
                    }
                }
                Ok((result, cur2))
            },
            1u8 => {
                let cur0 = buffer;
                let (lit0, cur1) = match <u8 as Decode>::decode(cur0) {
                    Ok(p) => p,
                    Err(_) => {
                        proof {
                            assert(cur0@.len() >= 1);
                            assert(false);
                        }
                        return Err(DecodeError::Error);
                    },
                };
                if lit0 != 1u8 {
                    proof {
                        assert(cur0@[0] == lit0);
                        assert(false);
                    }
                    return Err(DecodeError::Error);
                }
                assert(buffer@ =~= seq![1u8] + cur1@);
                let (f1, cur2) = match <TableType as Decode>::decode(cur1) {
                    Ok(p) => p,
                    Err(_) => {
                        proof {
                            if Self::complete() && Self::dec_ok(buffer@) {
                                lemma_err_import_desc_table_1_fail(buffer@, cur0@, cur1@);
                            }
                        }
                        return Err(DecodeError::Error);
                    },
                };
                assert(buffer@ =~= seq![1u8] + <TableType as Encode>::spec_enc(f1.deep_view()) + cur2@);
                let result = ImportDesc::Table(f1);
                proof {
                    assert(Self::spec_enc(result.deep_view()) =~= seq![1u8] + <TableType as Encode>::spec_enc(f1.deep_view()));
                    assert(buffer@ =~= Self::spec_enc(result.deep_view()) + cur2@);
                    if Self::complete() {
                        assert(Self::dec_ok(buffer@)) by {
                            assert(Self::spec_wf(result.deep_view()) && buffer@
                                == Self::spec_enc(result.deep_view()) + cur2@
                                && Self::tail_stop(cur2@));
                        }
                    }
                }
                Ok((result, cur2))
            },
            2u8 => {
                let cur0 = buffer;
                let (lit0, cur1) = match <u8 as Decode>::decode(cur0) {
                    Ok(p) => p,
                    Err(_) => {
                        proof {
                            assert(cur0@.len() >= 1);
                            assert(false);
                        }
                        return Err(DecodeError::Error);
                    },
                };
                if lit0 != 2u8 {
                    proof {
                        assert(cur0@[0] == lit0);
                        assert(false);
                    }
                    return Err(DecodeError::Error);
                }
                assert(buffer@ =~= seq![2u8] + cur1@);
                let (f1, cur2) = match <MemType as Decode>::decode(cur1) {
                    Ok(p) => p,
                    Err(_) => {
                        proof {
                            if Self::complete() && Self::dec_ok(buffer@) {
                                lemma_err_import_desc_mem_1_fail(buffer@, cur0@, cur1@);
                            }
                        }
                        return Err(DecodeError::Error);
                    },
                };
                assert(buffer@ =~= seq![2u8] + <MemType as Encode>::spec_enc(f1.deep_view()) + cur2@);
                let result = ImportDesc::Mem(f1);
                proof {
                    assert(Self::spec_enc(result.deep_view()) =~= seq![2u8] + <MemType as Encode>::spec_enc(f1.deep_view()));
                    assert(buffer@ =~= Self::spec_enc(result.deep_view()) + cur2@);
                    if Self::complete() {
                        assert(Self::dec_ok(buffer@)) by {
                            assert(Self::spec_wf(result.deep_view()) && buffer@
                                == Self::spec_enc(result.deep_view()) + cur2@
                                && Self::tail_stop(cur2@));
                        }
                    }
                }
                Ok((result, cur2))
            },
            3u8 => {
                let cur0 = buffer;
                let (lit0, cur1) = match <u8 as Decode>::decode(cur0) {
                    Ok(p) => p,
                    Err(_) => {
                        proof {
                            assert(cur0@.len() >= 1);
                            assert(false);
                        }
                        return Err(DecodeError::Error);
                    },
                };
                if lit0 != 3u8 {
                    proof {
                        assert(cur0@[0] == lit0);
                        assert(false);
                    }
                    return Err(DecodeError::Error);
                }
                assert(buffer@ =~= seq![3u8] + cur1@);
                let (f1, cur2) = match <GlobalType as Decode>::decode(cur1) {
                    Ok(p) => p,
                    Err(_) => {
                        proof {
                            if Self::complete() && Self::dec_ok(buffer@) {
                                lemma_err_import_desc_global_1_fail(buffer@, cur0@, cur1@);
                            }
                        }
                        return Err(DecodeError::Error);
                    },
                };
                assert(buffer@ =~= seq![3u8] + <GlobalType as Encode>::spec_enc(f1.deep_view()) + cur2@);
                let result = ImportDesc::Global(f1);
                proof {
                    assert(Self::spec_enc(result.deep_view()) =~= seq![3u8] + <GlobalType as Encode>::spec_enc(f1.deep_view()));
                    assert(buffer@ =~= Self::spec_enc(result.deep_view()) + cur2@);
                    if Self::complete() {
                        assert(Self::dec_ok(buffer@)) by {
                            assert(Self::spec_wf(result.deep_view()) && buffer@
                                == Self::spec_enc(result.deep_view()) + cur2@
                                && Self::tail_stop(cur2@));
                        }
                    }
                }
                Ok((result, cur2))
            },
            _ => {
                proof {
                    if Self::complete() && Self::dec_ok(buffer@) {
                        let (w, e) = choose|w: ImportDesc, e: Seq<u8>|
                            Self::spec_wf(w) && buffer@ == Self::spec_enc(w) + e
                                && Self::tail_stop(e);
                        lemma_import_desc_head(w);
                        assert((Self::spec_enc(w) + e)[0] == Self::spec_enc(w)[0]);
                        assert(buffer@[0] == import_desc_op(w));
                        assert(false);
                    }
                }
                Err(DecodeError::Error)
            },
        }
    }
}

/// What a claimed parse of `ImportDesc` says about the bytes at this point.
#[verifier::rlimit(100)]
proof fn lemma_err_import_desc_func_1_fail(buffer: Seq<u8>, c0: Seq<u8>, c1: Seq<u8>)
    requires
        <ImportDesc as Decode>::complete(),
        <ImportDesc as Decode>::dec_ok(buffer),
        c0 == buffer,
        c0 == seq![0u8] + c1,
    ensures
        <TypeIdx as Decode>::dec_ok(c1),
{
    let (w, e) = choose|w: ImportDesc, e: Seq<u8>|
        <ImportDesc as Encode>::spec_wf(w) && buffer == <ImportDesc as Encode>::spec_enc(w)
            + e && <ImportDesc as Decode>::tail_stop(e);
    lemma_import_desc_head(w);
    assert((<ImportDesc as Encode>::spec_enc(w) + e)[0]
        == <ImportDesc as Encode>::spec_enc(w)[0]);
    assert(buffer[0] == import_desc_op(w));
    assert(import_desc_op(w) == 0u8);
    match w {
        ImportDesc::Func(wv0) => {
            assert(buffer =~= seq![0u8] + (<TypeIdx as Encode>::spec_enc(wv0) + (e)));
            lemma_concat_cancel(seq![0u8], c1, seq![0u8], <TypeIdx as Encode>::spec_enc(wv0) + (e));
            assert(c1 == <TypeIdx as Encode>::spec_enc(wv0) + (e));
            assert(c1 == <TypeIdx as Encode>::spec_enc(wv0) + (e));
            <TypeIdx as Decode>::lemma_plain(e);
            <TypeIdx as Decode>::lemma_covers(wv0, e);
            assert(<TypeIdx as Decode>::dec_ok(c1));
        },
        _ => {
            assert(false);
        },
    }
}

/// What a claimed parse of `ImportDesc` says about the bytes at this point.
#[verifier::rlimit(100)]
proof fn lemma_err_import_desc_table_1_fail(buffer: Seq<u8>, c0: Seq<u8>, c1: Seq<u8>)
    requires
        <ImportDesc as Decode>::complete(),
        <ImportDesc as Decode>::dec_ok(buffer),
        c0 == buffer,
        c0 == seq![1u8] + c1,
    ensures
        <TableType as Decode>::dec_ok(c1),
{
    let (w, e) = choose|w: ImportDesc, e: Seq<u8>|
        <ImportDesc as Encode>::spec_wf(w) && buffer == <ImportDesc as Encode>::spec_enc(w)
            + e && <ImportDesc as Decode>::tail_stop(e);
    lemma_import_desc_head(w);
    assert((<ImportDesc as Encode>::spec_enc(w) + e)[0]
        == <ImportDesc as Encode>::spec_enc(w)[0]);
    assert(buffer[0] == import_desc_op(w));
    assert(import_desc_op(w) == 1u8);
    match w {
        ImportDesc::Table(wv0) => {
            assert(buffer =~= seq![1u8] + (<TableType as Encode>::spec_enc(wv0) + (e)));
            lemma_concat_cancel(seq![1u8], c1, seq![1u8], <TableType as Encode>::spec_enc(wv0) + (e));
            assert(c1 == <TableType as Encode>::spec_enc(wv0) + (e));
            assert(c1 == <TableType as Encode>::spec_enc(wv0) + (e));
            <TableType as Decode>::lemma_plain(e);
            <TableType as Decode>::lemma_covers(wv0, e);
            assert(<TableType as Decode>::dec_ok(c1));
        },
        _ => {
            assert(false);
        },
    }
}

/// What a claimed parse of `ImportDesc` says about the bytes at this point.
#[verifier::rlimit(100)]
proof fn lemma_err_import_desc_mem_1_fail(buffer: Seq<u8>, c0: Seq<u8>, c1: Seq<u8>)
    requires
        <ImportDesc as Decode>::complete(),
        <ImportDesc as Decode>::dec_ok(buffer),
        c0 == buffer,
        c0 == seq![2u8] + c1,
    ensures
        <MemType as Decode>::dec_ok(c1),
{
    let (w, e) = choose|w: ImportDesc, e: Seq<u8>|
        <ImportDesc as Encode>::spec_wf(w) && buffer == <ImportDesc as Encode>::spec_enc(w)
            + e && <ImportDesc as Decode>::tail_stop(e);
    lemma_import_desc_head(w);
    assert((<ImportDesc as Encode>::spec_enc(w) + e)[0]
        == <ImportDesc as Encode>::spec_enc(w)[0]);
    assert(buffer[0] == import_desc_op(w));
    assert(import_desc_op(w) == 2u8);
    match w {
        ImportDesc::Mem(wv0) => {
            assert(buffer =~= seq![2u8] + (<MemType as Encode>::spec_enc(wv0) + (e)));
            lemma_concat_cancel(seq![2u8], c1, seq![2u8], <MemType as Encode>::spec_enc(wv0) + (e));
            assert(c1 == <MemType as Encode>::spec_enc(wv0) + (e));
            assert(c1 == <MemType as Encode>::spec_enc(wv0) + (e));
            <MemType as Decode>::lemma_plain(e);
            <MemType as Decode>::lemma_covers(wv0, e);
            assert(<MemType as Decode>::dec_ok(c1));
        },
        _ => {
            assert(false);
        },
    }
}

/// What a claimed parse of `ImportDesc` says about the bytes at this point.
#[verifier::rlimit(100)]
proof fn lemma_err_import_desc_global_1_fail(buffer: Seq<u8>, c0: Seq<u8>, c1: Seq<u8>)
    requires
        <ImportDesc as Decode>::complete(),
        <ImportDesc as Decode>::dec_ok(buffer),
        c0 == buffer,
        c0 == seq![3u8] + c1,
    ensures
        <GlobalType as Decode>::dec_ok(c1),
{
    let (w, e) = choose|w: ImportDesc, e: Seq<u8>|
        <ImportDesc as Encode>::spec_wf(w) && buffer == <ImportDesc as Encode>::spec_enc(w)
            + e && <ImportDesc as Decode>::tail_stop(e);
    lemma_import_desc_head(w);
    assert((<ImportDesc as Encode>::spec_enc(w) + e)[0]
        == <ImportDesc as Encode>::spec_enc(w)[0]);
    assert(buffer[0] == import_desc_op(w));
    assert(import_desc_op(w) == 3u8);
    match w {
        ImportDesc::Global(wv0) => {
            assert(buffer =~= seq![3u8] + (<GlobalType as Encode>::spec_enc(wv0) + (e)));
            lemma_concat_cancel(seq![3u8], c1, seq![3u8], <GlobalType as Encode>::spec_enc(wv0) + (e));
            assert(c1 == <GlobalType as Encode>::spec_enc(wv0) + (e));
            assert(c1 == <GlobalType as Encode>::spec_enc(wv0) + (e));
            <GlobalType as Decode>::lemma_plain(e);
            <GlobalType as Decode>::lemma_covers(wv0, e);
            assert(<GlobalType as Decode>::dec_ok(c1));
        },
        _ => {
            assert(false);
        },
    }
}

/// `ExportDesc` non-terminal of the binary grammar.
#[derive(Debug, PartialEq)]
pub enum ExportDesc {
    Func(FuncIdx),
    Table(TableIdx),
    Mem(MemIdx),
    Global(GlobalIdx),
}

impl DeepView for ExportDesc {
    type V = ExportDesc;

    open spec fn deep_view(&self) -> ExportDesc {
        *self
    }
}

impl Encode for ExportDesc {
    open spec fn spec_enc(v: ExportDesc) -> Seq<u8> {
        match v {
            ExportDesc::Func(a0) => seq![0u8] + <FuncIdx as Encode>::spec_enc(a0),
            ExportDesc::Table(a0) => seq![1u8] + <TableIdx as Encode>::spec_enc(a0),
            ExportDesc::Mem(a0) => seq![2u8] + <MemIdx as Encode>::spec_enc(a0),
            ExportDesc::Global(a0) => seq![3u8] + <GlobalIdx as Encode>::spec_enc(a0),
        }
    }

    open spec fn spec_wf(v: ExportDesc) -> bool {
        match v {
            ExportDesc::Func(a0) => <FuncIdx as Encode>::spec_wf(a0),
            ExportDesc::Table(a0) => <TableIdx as Encode>::spec_wf(a0),
            ExportDesc::Mem(a0) => <MemIdx as Encode>::spec_wf(a0),
            ExportDesc::Global(a0) => <GlobalIdx as Encode>::spec_wf(a0),
        }
    }

    #[verifier::rlimit(100)]
    fn encode(&self, buffer: &mut Vec<u8>) {
        match self {
            ExportDesc::Func(a0) => {
                buffer.push(0u8);
                assert(buffer@ =~= old(buffer)@ + seq![0u8]);
                a0.encode(buffer);
                assert(buffer@ =~= old(buffer)@ + seq![0u8] + <FuncIdx as Encode>::spec_enc(a0.deep_view()));
            }
            ExportDesc::Table(a0) => {
                buffer.push(1u8);
                assert(buffer@ =~= old(buffer)@ + seq![1u8]);
                a0.encode(buffer);
                assert(buffer@ =~= old(buffer)@ + seq![1u8] + <TableIdx as Encode>::spec_enc(a0.deep_view()));
            }
            ExportDesc::Mem(a0) => {
                buffer.push(2u8);
                assert(buffer@ =~= old(buffer)@ + seq![2u8]);
                a0.encode(buffer);
                assert(buffer@ =~= old(buffer)@ + seq![2u8] + <MemIdx as Encode>::spec_enc(a0.deep_view()));
            }
            ExportDesc::Global(a0) => {
                buffer.push(3u8);
                assert(buffer@ =~= old(buffer)@ + seq![3u8]);
                a0.encode(buffer);
                assert(buffer@ =~= old(buffer)@ + seq![3u8] + <GlobalIdx as Encode>::spec_enc(a0.deep_view()));
            }
        }
        assert(buffer@ =~= old(buffer)@ + Self::spec_enc(self.deep_view()));
    }
}

/// First wire byte of each `ExportDesc` alternative: the discriminator.
pub open spec fn export_desc_op(v: ExportDesc) -> u8 {
    match v {
        ExportDesc::Func(_) => 0u8,
        ExportDesc::Table(_) => 1u8,
        ExportDesc::Mem(_) => 2u8,
        ExportDesc::Global(_) => 3u8,
    }
}

/// Every `ExportDesc` encoding starts with its discriminator byte.
pub proof fn lemma_export_desc_head(v: ExportDesc)
    ensures
        <ExportDesc as Encode>::spec_enc(v).len() >= 1,
        <ExportDesc as Encode>::spec_enc(v)[0] == export_desc_op(v),
{
    match v {
        ExportDesc::Func(a0) => {
            assert(<ExportDesc as Encode>::spec_enc(v) =~= seq![0u8] + (<FuncIdx as Encode>::spec_enc(a0)));
            assert((seq![0u8] + (<FuncIdx as Encode>::spec_enc(a0)))[0] == 0u8);
        },
        ExportDesc::Table(a0) => {
            assert(<ExportDesc as Encode>::spec_enc(v) =~= seq![1u8] + (<TableIdx as Encode>::spec_enc(a0)));
            assert((seq![1u8] + (<TableIdx as Encode>::spec_enc(a0)))[0] == 1u8);
        },
        ExportDesc::Mem(a0) => {
            assert(<ExportDesc as Encode>::spec_enc(v) =~= seq![2u8] + (<MemIdx as Encode>::spec_enc(a0)));
            assert((seq![2u8] + (<MemIdx as Encode>::spec_enc(a0)))[0] == 2u8);
        },
        ExportDesc::Global(a0) => {
            assert(<ExportDesc as Encode>::spec_enc(v) =~= seq![3u8] + (<GlobalIdx as Encode>::spec_enc(a0)));
            assert((seq![3u8] + (<GlobalIdx as Encode>::spec_enc(a0)))[0] == 3u8);
        },
    }
}

impl Decode for ExportDesc {
    open spec fn complete() -> bool {
        <FuncIdx as Decode>::complete() && <TableIdx as Decode>::complete() && <MemIdx as Decode>::complete() && <GlobalIdx as Decode>::complete()
    }

    #[verifier::rlimit(100)]
    proof fn lemma_plain(s: Seq<u8>) {
        assert forall|v: ExportDesc| Self::spec_enc(v).len() >= 1 by {
            lemma_export_desc_head(v);
        }
        if Self::dec_ok(Seq::<u8>::empty()) {
            let (v, e) = choose|v: ExportDesc, e: Seq<u8>|
                Self::spec_wf(v) && Seq::<u8>::empty() == Self::spec_enc(v) + e
                    && Self::tail_stop(e);
            assert(Self::spec_enc(v).len() >= 1);
            assert(false);
        }
    }

    #[verifier::rlimit(100)]
    proof fn lemma_unamb(v1: ExportDesc, v2: ExportDesc, e1: Seq<u8>, e2: Seq<u8>) {
        lemma_export_desc_head(v1);
        lemma_export_desc_head(v2);
        assert((Self::spec_enc(v1) + e1)[0] == Self::spec_enc(v1)[0]);
        assert((Self::spec_enc(v2) + e2)[0] == Self::spec_enc(v2)[0]);
        assert(export_desc_op(v1) == export_desc_op(v2));
        match v1 {
            ExportDesc::Func(a0) => {
                match v2 {
                    ExportDesc::Func(b0) => {
                        assert(Self::spec_enc(v1) + e1 =~= seq![0u8] + (<FuncIdx as Encode>::spec_enc(a0) + (e1)));
                        assert(Self::spec_enc(v2) + e2 =~= seq![0u8] + (<FuncIdx as Encode>::spec_enc(b0) + (e2)));
                        lemma_concat_cancel(seq![0u8], <FuncIdx as Encode>::spec_enc(a0) + (e1), seq![0u8], <FuncIdx as Encode>::spec_enc(b0) + (e2));
                        <FuncIdx as Decode>::lemma_plain(e1);
                        <FuncIdx as Decode>::lemma_plain(e2);
                        <FuncIdx as Decode>::lemma_unamb(a0, b0, e1, e2);
                        assert(e1 == e2);
                        assert(a0 == b0);
                        assert(v1 == v2);
                    },
                    _ => {
                        assert(false);
                    },
                }
            },
            ExportDesc::Table(a0) => {
                match v2 {
                    ExportDesc::Table(b0) => {
                        assert(Self::spec_enc(v1) + e1 =~= seq![1u8] + (<TableIdx as Encode>::spec_enc(a0) + (e1)));
                        assert(Self::spec_enc(v2) + e2 =~= seq![1u8] + (<TableIdx as Encode>::spec_enc(b0) + (e2)));
                        lemma_concat_cancel(seq![1u8], <TableIdx as Encode>::spec_enc(a0) + (e1), seq![1u8], <TableIdx as Encode>::spec_enc(b0) + (e2));
                        <TableIdx as Decode>::lemma_plain(e1);
                        <TableIdx as Decode>::lemma_plain(e2);
                        <TableIdx as Decode>::lemma_unamb(a0, b0, e1, e2);
                        assert(e1 == e2);
                        assert(a0 == b0);
                        assert(v1 == v2);
                    },
                    _ => {
                        assert(false);
                    },
                }
            },
            ExportDesc::Mem(a0) => {
                match v2 {
                    ExportDesc::Mem(b0) => {
                        assert(Self::spec_enc(v1) + e1 =~= seq![2u8] + (<MemIdx as Encode>::spec_enc(a0) + (e1)));
                        assert(Self::spec_enc(v2) + e2 =~= seq![2u8] + (<MemIdx as Encode>::spec_enc(b0) + (e2)));
                        lemma_concat_cancel(seq![2u8], <MemIdx as Encode>::spec_enc(a0) + (e1), seq![2u8], <MemIdx as Encode>::spec_enc(b0) + (e2));
                        <MemIdx as Decode>::lemma_plain(e1);
                        <MemIdx as Decode>::lemma_plain(e2);
                        <MemIdx as Decode>::lemma_unamb(a0, b0, e1, e2);
                        assert(e1 == e2);
                        assert(a0 == b0);
                        assert(v1 == v2);
                    },
                    _ => {
                        assert(false);
                    },
                }
            },
            ExportDesc::Global(a0) => {
                match v2 {
                    ExportDesc::Global(b0) => {
                        assert(Self::spec_enc(v1) + e1 =~= seq![3u8] + (<GlobalIdx as Encode>::spec_enc(a0) + (e1)));
                        assert(Self::spec_enc(v2) + e2 =~= seq![3u8] + (<GlobalIdx as Encode>::spec_enc(b0) + (e2)));
                        lemma_concat_cancel(seq![3u8], <GlobalIdx as Encode>::spec_enc(a0) + (e1), seq![3u8], <GlobalIdx as Encode>::spec_enc(b0) + (e2));
                        <GlobalIdx as Decode>::lemma_plain(e1);
                        <GlobalIdx as Decode>::lemma_plain(e2);
                        <GlobalIdx as Decode>::lemma_unamb(a0, b0, e1, e2);
                        assert(e1 == e2);
                        assert(a0 == b0);
                        assert(v1 == v2);
                    },
                    _ => {
                        assert(false);
                    },
                }
            },
        }
    }

    proof fn lemma_covers(v: Self::V, e: Seq<u8>) {
        assert(Self::spec_wf(v) && Self::spec_enc(v) + e == Self::spec_enc(v) + e
            && Self::tail_stop(e));
    }

    #[verifier::rlimit(100)]
    fn decode(buffer: &[u8]) -> (r: DecodeResult<Self>) {
        if buffer.len() == 0 {
            proof {
                if Self::complete() && Self::dec_ok(buffer@) {
                    let (w, e) = choose|w: ExportDesc, e: Seq<u8>|
                        Self::spec_wf(w) && buffer@ == Self::spec_enc(w) + e
                            && Self::tail_stop(e);
                    lemma_export_desc_head(w);
                    assert(false);
                }
            }
            return Err(DecodeError::Error);
        }
        let b0 = buffer[0];
        match b0 {
            0u8 => {
                let cur0 = buffer;
                let (lit0, cur1) = match <u8 as Decode>::decode(cur0) {
                    Ok(p) => p,
                    Err(_) => {
                        proof {
                            assert(cur0@.len() >= 1);
                            assert(false);
                        }
                        return Err(DecodeError::Error);
                    },
                };
                if lit0 != 0u8 {
                    proof {
                        assert(cur0@[0] == lit0);
                        assert(false);
                    }
                    return Err(DecodeError::Error);
                }
                assert(buffer@ =~= seq![0u8] + cur1@);
                let (f1, cur2) = match <FuncIdx as Decode>::decode(cur1) {
                    Ok(p) => p,
                    Err(_) => {
                        proof {
                            if Self::complete() && Self::dec_ok(buffer@) {
                                lemma_err_export_desc_func_1_fail(buffer@, cur0@, cur1@);
                            }
                        }
                        return Err(DecodeError::Error);
                    },
                };
                assert(buffer@ =~= seq![0u8] + <FuncIdx as Encode>::spec_enc(f1.deep_view()) + cur2@);
                let result = ExportDesc::Func(f1);
                proof {
                    assert(Self::spec_enc(result.deep_view()) =~= seq![0u8] + <FuncIdx as Encode>::spec_enc(f1.deep_view()));
                    assert(buffer@ =~= Self::spec_enc(result.deep_view()) + cur2@);
                    if Self::complete() {
                        assert(Self::dec_ok(buffer@)) by {
                            assert(Self::spec_wf(result.deep_view()) && buffer@
                                == Self::spec_enc(result.deep_view()) + cur2@
                                && Self::tail_stop(cur2@));
                        }
                    }
                }
                Ok((result, cur2))
            },
            1u8 => {
                let cur0 = buffer;
                let (lit0, cur1) = match <u8 as Decode>::decode(cur0) {
                    Ok(p) => p,
                    Err(_) => {
                        proof {
                            assert(cur0@.len() >= 1);
                            assert(false);
                        }
                        return Err(DecodeError::Error);
                    },
                };
                if lit0 != 1u8 {
                    proof {
                        assert(cur0@[0] == lit0);
                        assert(false);
                    }
                    return Err(DecodeError::Error);
                }
                assert(buffer@ =~= seq![1u8] + cur1@);
                let (f1, cur2) = match <TableIdx as Decode>::decode(cur1) {
                    Ok(p) => p,
                    Err(_) => {
                        proof {
                            if Self::complete() && Self::dec_ok(buffer@) {
                                lemma_err_export_desc_table_1_fail(buffer@, cur0@, cur1@);
                            }
                        }
                        return Err(DecodeError::Error);
                    },
                };
                assert(buffer@ =~= seq![1u8] + <TableIdx as Encode>::spec_enc(f1.deep_view()) + cur2@);
                let result = ExportDesc::Table(f1);
                proof {
                    assert(Self::spec_enc(result.deep_view()) =~= seq![1u8] + <TableIdx as Encode>::spec_enc(f1.deep_view()));
                    assert(buffer@ =~= Self::spec_enc(result.deep_view()) + cur2@);
                    if Self::complete() {
                        assert(Self::dec_ok(buffer@)) by {
                            assert(Self::spec_wf(result.deep_view()) && buffer@
                                == Self::spec_enc(result.deep_view()) + cur2@
                                && Self::tail_stop(cur2@));
                        }
                    }
                }
                Ok((result, cur2))
            },
            2u8 => {
                let cur0 = buffer;
                let (lit0, cur1) = match <u8 as Decode>::decode(cur0) {
                    Ok(p) => p,
                    Err(_) => {
                        proof {
                            assert(cur0@.len() >= 1);
                            assert(false);
                        }
                        return Err(DecodeError::Error);
                    },
                };
                if lit0 != 2u8 {
                    proof {
                        assert(cur0@[0] == lit0);
                        assert(false);
                    }
                    return Err(DecodeError::Error);
                }
                assert(buffer@ =~= seq![2u8] + cur1@);
                let (f1, cur2) = match <MemIdx as Decode>::decode(cur1) {
                    Ok(p) => p,
                    Err(_) => {
                        proof {
                            if Self::complete() && Self::dec_ok(buffer@) {
                                lemma_err_export_desc_mem_1_fail(buffer@, cur0@, cur1@);
                            }
                        }
                        return Err(DecodeError::Error);
                    },
                };
                assert(buffer@ =~= seq![2u8] + <MemIdx as Encode>::spec_enc(f1.deep_view()) + cur2@);
                let result = ExportDesc::Mem(f1);
                proof {
                    assert(Self::spec_enc(result.deep_view()) =~= seq![2u8] + <MemIdx as Encode>::spec_enc(f1.deep_view()));
                    assert(buffer@ =~= Self::spec_enc(result.deep_view()) + cur2@);
                    if Self::complete() {
                        assert(Self::dec_ok(buffer@)) by {
                            assert(Self::spec_wf(result.deep_view()) && buffer@
                                == Self::spec_enc(result.deep_view()) + cur2@
                                && Self::tail_stop(cur2@));
                        }
                    }
                }
                Ok((result, cur2))
            },
            3u8 => {
                let cur0 = buffer;
                let (lit0, cur1) = match <u8 as Decode>::decode(cur0) {
                    Ok(p) => p,
                    Err(_) => {
                        proof {
                            assert(cur0@.len() >= 1);
                            assert(false);
                        }
                        return Err(DecodeError::Error);
                    },
                };
                if lit0 != 3u8 {
                    proof {
                        assert(cur0@[0] == lit0);
                        assert(false);
                    }
                    return Err(DecodeError::Error);
                }
                assert(buffer@ =~= seq![3u8] + cur1@);
                let (f1, cur2) = match <GlobalIdx as Decode>::decode(cur1) {
                    Ok(p) => p,
                    Err(_) => {
                        proof {
                            if Self::complete() && Self::dec_ok(buffer@) {
                                lemma_err_export_desc_global_1_fail(buffer@, cur0@, cur1@);
                            }
                        }
                        return Err(DecodeError::Error);
                    },
                };
                assert(buffer@ =~= seq![3u8] + <GlobalIdx as Encode>::spec_enc(f1.deep_view()) + cur2@);
                let result = ExportDesc::Global(f1);
                proof {
                    assert(Self::spec_enc(result.deep_view()) =~= seq![3u8] + <GlobalIdx as Encode>::spec_enc(f1.deep_view()));
                    assert(buffer@ =~= Self::spec_enc(result.deep_view()) + cur2@);
                    if Self::complete() {
                        assert(Self::dec_ok(buffer@)) by {
                            assert(Self::spec_wf(result.deep_view()) && buffer@
                                == Self::spec_enc(result.deep_view()) + cur2@
                                && Self::tail_stop(cur2@));
                        }
                    }
                }
                Ok((result, cur2))
            },
            _ => {
                proof {
                    if Self::complete() && Self::dec_ok(buffer@) {
                        let (w, e) = choose|w: ExportDesc, e: Seq<u8>|
                            Self::spec_wf(w) && buffer@ == Self::spec_enc(w) + e
                                && Self::tail_stop(e);
                        lemma_export_desc_head(w);
                        assert((Self::spec_enc(w) + e)[0] == Self::spec_enc(w)[0]);
                        assert(buffer@[0] == export_desc_op(w));
                        assert(false);
                    }
                }
                Err(DecodeError::Error)
            },
        }
    }
}

/// What a claimed parse of `ExportDesc` says about the bytes at this point.
#[verifier::rlimit(100)]
proof fn lemma_err_export_desc_func_1_fail(buffer: Seq<u8>, c0: Seq<u8>, c1: Seq<u8>)
    requires
        <ExportDesc as Decode>::complete(),
        <ExportDesc as Decode>::dec_ok(buffer),
        c0 == buffer,
        c0 == seq![0u8] + c1,
    ensures
        <FuncIdx as Decode>::dec_ok(c1),
{
    let (w, e) = choose|w: ExportDesc, e: Seq<u8>|
        <ExportDesc as Encode>::spec_wf(w) && buffer == <ExportDesc as Encode>::spec_enc(w)
            + e && <ExportDesc as Decode>::tail_stop(e);
    lemma_export_desc_head(w);
    assert((<ExportDesc as Encode>::spec_enc(w) + e)[0]
        == <ExportDesc as Encode>::spec_enc(w)[0]);
    assert(buffer[0] == export_desc_op(w));
    assert(export_desc_op(w) == 0u8);
    match w {
        ExportDesc::Func(wv0) => {
            assert(buffer =~= seq![0u8] + (<FuncIdx as Encode>::spec_enc(wv0) + (e)));
            lemma_concat_cancel(seq![0u8], c1, seq![0u8], <FuncIdx as Encode>::spec_enc(wv0) + (e));
            assert(c1 == <FuncIdx as Encode>::spec_enc(wv0) + (e));
            assert(c1 == <FuncIdx as Encode>::spec_enc(wv0) + (e));
            <FuncIdx as Decode>::lemma_plain(e);
            <FuncIdx as Decode>::lemma_covers(wv0, e);
            assert(<FuncIdx as Decode>::dec_ok(c1));
        },
        _ => {
            assert(false);
        },
    }
}

/// What a claimed parse of `ExportDesc` says about the bytes at this point.
#[verifier::rlimit(100)]
proof fn lemma_err_export_desc_table_1_fail(buffer: Seq<u8>, c0: Seq<u8>, c1: Seq<u8>)
    requires
        <ExportDesc as Decode>::complete(),
        <ExportDesc as Decode>::dec_ok(buffer),
        c0 == buffer,
        c0 == seq![1u8] + c1,
    ensures
        <TableIdx as Decode>::dec_ok(c1),
{
    let (w, e) = choose|w: ExportDesc, e: Seq<u8>|
        <ExportDesc as Encode>::spec_wf(w) && buffer == <ExportDesc as Encode>::spec_enc(w)
            + e && <ExportDesc as Decode>::tail_stop(e);
    lemma_export_desc_head(w);
    assert((<ExportDesc as Encode>::spec_enc(w) + e)[0]
        == <ExportDesc as Encode>::spec_enc(w)[0]);
    assert(buffer[0] == export_desc_op(w));
    assert(export_desc_op(w) == 1u8);
    match w {
        ExportDesc::Table(wv0) => {
            assert(buffer =~= seq![1u8] + (<TableIdx as Encode>::spec_enc(wv0) + (e)));
            lemma_concat_cancel(seq![1u8], c1, seq![1u8], <TableIdx as Encode>::spec_enc(wv0) + (e));
            assert(c1 == <TableIdx as Encode>::spec_enc(wv0) + (e));
            assert(c1 == <TableIdx as Encode>::spec_enc(wv0) + (e));
            <TableIdx as Decode>::lemma_plain(e);
            <TableIdx as Decode>::lemma_covers(wv0, e);
            assert(<TableIdx as Decode>::dec_ok(c1));
        },
        _ => {
            assert(false);
        },
    }
}

/// What a claimed parse of `ExportDesc` says about the bytes at this point.
#[verifier::rlimit(100)]
proof fn lemma_err_export_desc_mem_1_fail(buffer: Seq<u8>, c0: Seq<u8>, c1: Seq<u8>)
    requires
        <ExportDesc as Decode>::complete(),
        <ExportDesc as Decode>::dec_ok(buffer),
        c0 == buffer,
        c0 == seq![2u8] + c1,
    ensures
        <MemIdx as Decode>::dec_ok(c1),
{
    let (w, e) = choose|w: ExportDesc, e: Seq<u8>|
        <ExportDesc as Encode>::spec_wf(w) && buffer == <ExportDesc as Encode>::spec_enc(w)
            + e && <ExportDesc as Decode>::tail_stop(e);
    lemma_export_desc_head(w);
    assert((<ExportDesc as Encode>::spec_enc(w) + e)[0]
        == <ExportDesc as Encode>::spec_enc(w)[0]);
    assert(buffer[0] == export_desc_op(w));
    assert(export_desc_op(w) == 2u8);
    match w {
        ExportDesc::Mem(wv0) => {
            assert(buffer =~= seq![2u8] + (<MemIdx as Encode>::spec_enc(wv0) + (e)));
            lemma_concat_cancel(seq![2u8], c1, seq![2u8], <MemIdx as Encode>::spec_enc(wv0) + (e));
            assert(c1 == <MemIdx as Encode>::spec_enc(wv0) + (e));
            assert(c1 == <MemIdx as Encode>::spec_enc(wv0) + (e));
            <MemIdx as Decode>::lemma_plain(e);
            <MemIdx as Decode>::lemma_covers(wv0, e);
            assert(<MemIdx as Decode>::dec_ok(c1));
        },
        _ => {
            assert(false);
        },
    }
}

/// What a claimed parse of `ExportDesc` says about the bytes at this point.
#[verifier::rlimit(100)]
proof fn lemma_err_export_desc_global_1_fail(buffer: Seq<u8>, c0: Seq<u8>, c1: Seq<u8>)
    requires
        <ExportDesc as Decode>::complete(),
        <ExportDesc as Decode>::dec_ok(buffer),
        c0 == buffer,
        c0 == seq![3u8] + c1,
    ensures
        <GlobalIdx as Decode>::dec_ok(c1),
{
    let (w, e) = choose|w: ExportDesc, e: Seq<u8>|
        <ExportDesc as Encode>::spec_wf(w) && buffer == <ExportDesc as Encode>::spec_enc(w)
            + e && <ExportDesc as Decode>::tail_stop(e);
    lemma_export_desc_head(w);
    assert((<ExportDesc as Encode>::spec_enc(w) + e)[0]
        == <ExportDesc as Encode>::spec_enc(w)[0]);
    assert(buffer[0] == export_desc_op(w));
    assert(export_desc_op(w) == 3u8);
    match w {
        ExportDesc::Global(wv0) => {
            assert(buffer =~= seq![3u8] + (<GlobalIdx as Encode>::spec_enc(wv0) + (e)));
            lemma_concat_cancel(seq![3u8], c1, seq![3u8], <GlobalIdx as Encode>::spec_enc(wv0) + (e));
            assert(c1 == <GlobalIdx as Encode>::spec_enc(wv0) + (e));
            assert(c1 == <GlobalIdx as Encode>::spec_enc(wv0) + (e));
            <GlobalIdx as Decode>::lemma_plain(e);
            <GlobalIdx as Decode>::lemma_covers(wv0, e);
            assert(<GlobalIdx as Decode>::dec_ok(c1));
        },
        _ => {
            assert(false);
        },
    }
}

} // verus!
