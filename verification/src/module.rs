//! Module structure: sections and their payloads.
//!
//! A module is the 8-byte magic/version prefix followed by a greedy sequence
//! of sections; each section is an id byte and a size-prefixed payload.

use vstd::prelude::*;

use crate::codec::lemma_concat_cancel;
use crate::codec::Decode;
use crate::codec::DecodeError;
use crate::codec::DecodeResult;
use crate::codec::enc_seq;
use crate::codec::Encode;
use crate::codec::Name;
use crate::codec::Repeated;
use crate::codec::Sized;
use crate::instr::Expr;
use crate::instr::SpecInstr;
use crate::types::ElemKind;
use crate::types::ExportDesc;
use crate::types::FuncIdx;
use crate::types::GlobalType;
use crate::types::ImportDesc;
use crate::types::Locals;
use crate::types::MemIdx;
use crate::types::MemType;
use crate::types::RefType;
use crate::types::TableIdx;
use crate::types::TableType;
use crate::types::TypeIdx;
use crate::types::ValType;

verus! {

/// `Custom` non-terminal of the binary grammar.
#[derive(Debug, PartialEq)]
pub struct Custom(pub Name, pub Repeated<u8>);

/// Deep view of [`Custom`]: the same shape over abstract sequences.
pub struct SpecCustom(pub Seq<char>, pub Seq<u8>);

impl DeepView for Custom {
    type V = SpecCustom;

    open spec fn deep_view(&self) -> SpecCustom {
        SpecCustom(self.0.deep_view(), self.1.deep_view())
    }
}

impl Encode for Custom {
    open spec fn spec_enc(v: SpecCustom) -> Seq<u8> {
        <Name as Encode>::spec_enc(v.0) + <Repeated<u8> as Encode>::spec_enc(v.1)
    }

    open spec fn spec_wf(v: SpecCustom) -> bool {
        <Name as Encode>::spec_wf(v.0) && <Repeated<u8> as Encode>::spec_wf(v.1)
    }

    #[verifier::rlimit(100)]
    fn encode(&self, buffer: &mut Vec<u8>) {
        self.0.encode(buffer);
        assert(buffer@ =~= old(buffer)@ + <Name as Encode>::spec_enc(self.0.deep_view()));
        self.1.encode(buffer);
        assert(buffer@ =~= old(buffer)@ + <Name as Encode>::spec_enc(self.0.deep_view()) + <Repeated<u8> as Encode>::spec_enc(self.1.deep_view()));
        assert(buffer@ =~= old(buffer)@ + Self::spec_enc(self.deep_view()));
    }
}

impl Decode for Custom {
    open spec fn tail_stop(s: Seq<u8>) -> bool {
        <Repeated<u8> as Decode>::tail_stop(s)
    }

    open spec fn plain() -> bool {
        false
    }

    open spec fn complete() -> bool {
        <Name as Decode>::complete() && <Repeated<u8> as Decode>::complete()
    }

    #[verifier::rlimit(100)]
    proof fn lemma_plain(s: Seq<u8>) {
    }

    #[verifier::rlimit(100)]
    proof fn lemma_unamb(v1: SpecCustom, v2: SpecCustom, e1: Seq<u8>, e2: Seq<u8>) {
        assert(Self::spec_enc(v1) + e1 =~= <Name as Encode>::spec_enc(v1.0) + (<Repeated<u8> as Encode>::spec_enc(v1.1) + (e1)));
        assert(Self::spec_enc(v2) + e2 =~= <Name as Encode>::spec_enc(v2.0) + (<Repeated<u8> as Encode>::spec_enc(v2.1) + (e2)));
        <Name as Decode>::lemma_plain(<Repeated<u8> as Encode>::spec_enc(v1.1) + (e1));
        <Name as Decode>::lemma_plain(<Repeated<u8> as Encode>::spec_enc(v2.1) + (e2));
        <Name as Decode>::lemma_unamb(v1.0, v2.0, <Repeated<u8> as Encode>::spec_enc(v1.1) + (e1), <Repeated<u8> as Encode>::spec_enc(v2.1) + (e2));
        <Repeated<u8> as Decode>::lemma_unamb(v1.1, v2.1, e1, e2);
        assert(e1 == e2);
        assert(v1 == SpecCustom(v1.0, v1.1) && v2 == SpecCustom(v2.0, v2.1));
    }

    proof fn lemma_covers(v: Self::V, e: Seq<u8>) {
        assert(Self::spec_wf(v) && Self::spec_enc(v) + e == Self::spec_enc(v) + e
            && Self::tail_stop(e));
    }

    #[verifier::rlimit(100)]
    fn decode(buffer: &[u8]) -> (r: DecodeResult<Self>) {
        let cur0 = buffer;
        let (f0, cur1) = match <Name as Decode>::decode(cur0) {
            Ok(p) => p,
            Err(_) => {
                proof {
                    if Self::complete() && Self::dec_ok(buffer@) {
                        lemma_err_custom_custom_0_fail(buffer@, cur0@);
                    }
                }
                return Err(DecodeError::Error);
            },
        };
        assert(buffer@ =~= <Name as Encode>::spec_enc(f0.deep_view()) + cur1@);
        let (f1, cur2) = match <Repeated<u8> as Decode>::decode(cur1) {
            Ok(p) => p,
            Err(_) => {
                proof {
                    if Self::complete() && Self::dec_ok(buffer@) {
                        lemma_err_custom_custom_1_fail(buffer@, cur0@, cur1@, f0.deep_view());
                    }
                }
                return Err(DecodeError::Error);
            },
        };
        assert(buffer@ =~= <Name as Encode>::spec_enc(f0.deep_view()) + <Repeated<u8> as Encode>::spec_enc(f1.deep_view()) + cur2@);
        let result = Custom(f0, f1);
        proof {
            assert(Self::spec_enc(result.deep_view()) =~= <Name as Encode>::spec_enc(f0.deep_view()) + <Repeated<u8> as Encode>::spec_enc(f1.deep_view()));
            assert(buffer@ =~= Self::spec_enc(result.deep_view()) + cur2@);
            if Self::complete() {
                assert(Self::dec_ok(buffer@)) by {
                    assert(Self::spec_wf(result.deep_view()) && buffer@
                        == Self::spec_enc(result.deep_view()) + cur2@
                        && Self::tail_stop(cur2@));
                }
            }
        }
        Ok((result, cur2))
    }
}

/// What a claimed parse of `Custom` says about the bytes at this point.
#[verifier::rlimit(100)]
proof fn lemma_err_custom_custom_0_fail(buffer: Seq<u8>, c0: Seq<u8>)
    requires
        <Custom as Decode>::complete(),
        <Custom as Decode>::dec_ok(buffer),
        c0 == buffer,
    ensures
        <Name as Decode>::dec_ok(c0),
{
    let (w, e) = choose|w: SpecCustom, e: Seq<u8>|
        <Custom as Encode>::spec_wf(w) && buffer == <Custom as Encode>::spec_enc(w)
            + e && <Custom as Decode>::tail_stop(e);
    assert(buffer =~= <Name as Encode>::spec_enc(w.0) + (<Repeated<u8> as Encode>::spec_enc(w.1) + (e)));
    assert(c0 == <Name as Encode>::spec_enc(w.0) + (<Repeated<u8> as Encode>::spec_enc(w.1) + (e)));
    <Name as Decode>::lemma_plain(<Repeated<u8> as Encode>::spec_enc(w.1) + (e));
    <Name as Decode>::lemma_covers(w.0, <Repeated<u8> as Encode>::spec_enc(w.1) + (e));
    assert(<Name as Decode>::dec_ok(c0));
}

/// What a claimed parse of `Custom` says about the bytes at this point.
#[verifier::rlimit(100)]
proof fn lemma_err_custom_custom_1_fail(buffer: Seq<u8>, c0: Seq<u8>, c1: Seq<u8>, w0: Seq<char>)
    requires
        <Custom as Decode>::complete(),
        <Custom as Decode>::dec_ok(buffer),
        c0 == buffer,
        c0 == <Name as Encode>::spec_enc(w0) + c1,
        <Name as Encode>::spec_wf(w0),
        <Name as Decode>::tail_stop(c1),
    ensures
        <Repeated<u8> as Decode>::dec_ok(c1),
{
    let (w, e) = choose|w: SpecCustom, e: Seq<u8>|
        <Custom as Encode>::spec_wf(w) && buffer == <Custom as Encode>::spec_enc(w)
            + e && <Custom as Decode>::tail_stop(e);
    assert(buffer =~= <Name as Encode>::spec_enc(w.0) + (<Repeated<u8> as Encode>::spec_enc(w.1) + (e)));
    <Name as Decode>::lemma_plain(c1);
    <Name as Decode>::lemma_plain(<Repeated<u8> as Encode>::spec_enc(w.1) + (e));
    <Name as Decode>::lemma_unamb(w0, w.0, c1, <Repeated<u8> as Encode>::spec_enc(w.1) + (e));
    assert(c1 == <Repeated<u8> as Encode>::spec_enc(w.1) + (e));
    assert(c1 == <Repeated<u8> as Encode>::spec_enc(w.1) + (e));
    <Repeated<u8> as Decode>::lemma_covers(w.1, e);
    assert(<Repeated<u8> as Decode>::dec_ok(c1));
}

/// `FuncType` non-terminal of the binary grammar.
#[derive(Debug, PartialEq)]
pub struct FuncType(pub ResultType, pub ResultType);

/// Deep view of [`FuncType`]: the same shape over abstract sequences.
pub struct SpecFuncType(pub SpecResultType, pub SpecResultType);

impl DeepView for FuncType {
    type V = SpecFuncType;

    open spec fn deep_view(&self) -> SpecFuncType {
        SpecFuncType(self.0.deep_view(), self.1.deep_view())
    }
}

impl Encode for FuncType {
    open spec fn spec_enc(v: SpecFuncType) -> Seq<u8> {
        seq![96u8] + <ResultType as Encode>::spec_enc(v.0) + <ResultType as Encode>::spec_enc(v.1)
    }

    open spec fn spec_wf(v: SpecFuncType) -> bool {
        <ResultType as Encode>::spec_wf(v.0) && <ResultType as Encode>::spec_wf(v.1)
    }

    #[verifier::rlimit(100)]
    fn encode(&self, buffer: &mut Vec<u8>) {
        buffer.push(96u8);
        assert(buffer@ =~= old(buffer)@ + seq![96u8]);
        self.0.encode(buffer);
        assert(buffer@ =~= old(buffer)@ + seq![96u8] + <ResultType as Encode>::spec_enc(self.0.deep_view()));
        self.1.encode(buffer);
        assert(buffer@ =~= old(buffer)@ + seq![96u8] + <ResultType as Encode>::spec_enc(self.0.deep_view()) + <ResultType as Encode>::spec_enc(self.1.deep_view()));
        assert(buffer@ =~= old(buffer)@ + Self::spec_enc(self.deep_view()));
    }
}

impl Decode for FuncType {
    open spec fn complete() -> bool {
        <ResultType as Decode>::complete()
    }

    #[verifier::rlimit(100)]
    proof fn lemma_plain(s: Seq<u8>) {
        assert forall|v: SpecFuncType| Self::spec_enc(v).len() >= 1 by {
            assert(Self::spec_enc(v) =~= seq![96u8] + <ResultType as Encode>::spec_enc(v.0) + <ResultType as Encode>::spec_enc(v.1));
        }
        if Self::dec_ok(Seq::<u8>::empty()) {
            let (v, e) = choose|v: SpecFuncType, e: Seq<u8>|
                Self::spec_wf(v) && Seq::<u8>::empty() == Self::spec_enc(v) + e
                    && Self::tail_stop(e);
            assert(Self::spec_enc(v).len() >= 1);
            assert(false);
        }
    }

    #[verifier::rlimit(100)]
    proof fn lemma_unamb(v1: SpecFuncType, v2: SpecFuncType, e1: Seq<u8>, e2: Seq<u8>) {
        assert(Self::spec_enc(v1) + e1 =~= seq![96u8] + (<ResultType as Encode>::spec_enc(v1.0) + (<ResultType as Encode>::spec_enc(v1.1) + (e1))));
        assert(Self::spec_enc(v2) + e2 =~= seq![96u8] + (<ResultType as Encode>::spec_enc(v2.0) + (<ResultType as Encode>::spec_enc(v2.1) + (e2))));
        lemma_concat_cancel(seq![96u8], <ResultType as Encode>::spec_enc(v1.0) + (<ResultType as Encode>::spec_enc(v1.1) + (e1)), seq![96u8], <ResultType as Encode>::spec_enc(v2.0) + (<ResultType as Encode>::spec_enc(v2.1) + (e2)));
        <ResultType as Decode>::lemma_plain(<ResultType as Encode>::spec_enc(v1.1) + (e1));
        <ResultType as Decode>::lemma_plain(<ResultType as Encode>::spec_enc(v2.1) + (e2));
        <ResultType as Decode>::lemma_unamb(v1.0, v2.0, <ResultType as Encode>::spec_enc(v1.1) + (e1), <ResultType as Encode>::spec_enc(v2.1) + (e2));
        <ResultType as Decode>::lemma_plain(e1);
        <ResultType as Decode>::lemma_plain(e2);
        <ResultType as Decode>::lemma_unamb(v1.1, v2.1, e1, e2);
        assert(e1 == e2);
        assert(v1 == SpecFuncType(v1.0, v1.1) && v2 == SpecFuncType(v2.0, v2.1));
    }

    proof fn lemma_covers(v: Self::V, e: Seq<u8>) {
        assert(Self::spec_wf(v) && Self::spec_enc(v) + e == Self::spec_enc(v) + e
            && Self::tail_stop(e));
    }

    #[verifier::rlimit(100)]
    fn decode(buffer: &[u8]) -> (r: DecodeResult<Self>) {
        let cur0 = buffer;
        let (lit0, cur1) = match <u8 as Decode>::decode(cur0) {
            Ok(p) => p,
            Err(_) => {
                proof {
                    if Self::complete() && Self::dec_ok(buffer@) {
                        lemma_err_func_type_func_type_0_nobyte(buffer@, cur0@);
                    }
                }
                return Err(DecodeError::Error);
            },
        };
        if lit0 != 96u8 {
            proof {
                if Self::complete() && Self::dec_ok(buffer@) {
                    lemma_err_func_type_func_type_0_mismatch(buffer@, cur0@);
                }
            }
            return Err(DecodeError::Error);
        }
        assert(buffer@ =~= seq![96u8] + cur1@);
        let (f1, cur2) = match <ResultType as Decode>::decode(cur1) {
            Ok(p) => p,
            Err(_) => {
                proof {
                    if Self::complete() && Self::dec_ok(buffer@) {
                        lemma_err_func_type_func_type_1_fail(buffer@, cur0@, cur1@);
                    }
                }
                return Err(DecodeError::Error);
            },
        };
        assert(buffer@ =~= seq![96u8] + <ResultType as Encode>::spec_enc(f1.deep_view()) + cur2@);
        let (f2, cur3) = match <ResultType as Decode>::decode(cur2) {
            Ok(p) => p,
            Err(_) => {
                proof {
                    if Self::complete() && Self::dec_ok(buffer@) {
                        lemma_err_func_type_func_type_2_fail(buffer@, cur0@, cur1@, cur2@, f1.deep_view());
                    }
                }
                return Err(DecodeError::Error);
            },
        };
        assert(buffer@ =~= seq![96u8] + <ResultType as Encode>::spec_enc(f1.deep_view()) + <ResultType as Encode>::spec_enc(f2.deep_view()) + cur3@);
        let result = FuncType(f1, f2);
        proof {
            assert(Self::spec_enc(result.deep_view()) =~= seq![96u8] + <ResultType as Encode>::spec_enc(f1.deep_view()) + <ResultType as Encode>::spec_enc(f2.deep_view()));
            assert(buffer@ =~= Self::spec_enc(result.deep_view()) + cur3@);
            if Self::complete() {
                assert(Self::dec_ok(buffer@)) by {
                    assert(Self::spec_wf(result.deep_view()) && buffer@
                        == Self::spec_enc(result.deep_view()) + cur3@
                        && Self::tail_stop(cur3@));
                }
            }
        }
        Ok((result, cur3))
    }
}

/// What a claimed parse of `FuncType` says about the bytes at this point.
#[verifier::rlimit(100)]
proof fn lemma_err_func_type_func_type_0_nobyte(buffer: Seq<u8>, c0: Seq<u8>)
    requires
        <FuncType as Decode>::complete(),
        <FuncType as Decode>::dec_ok(buffer),
        c0 == buffer,
    ensures
        c0.len() >= 1,
{
    let (w, e) = choose|w: SpecFuncType, e: Seq<u8>|
        <FuncType as Encode>::spec_wf(w) && buffer == <FuncType as Encode>::spec_enc(w)
            + e && <FuncType as Decode>::tail_stop(e);
    assert(buffer =~= seq![96u8] + (<ResultType as Encode>::spec_enc(w.0) + (<ResultType as Encode>::spec_enc(w.1) + (e))));
    assert(c0 == seq![96u8] + (<ResultType as Encode>::spec_enc(w.0) + (<ResultType as Encode>::spec_enc(w.1) + (e))));
    assert(c0.len() >= 1);
}

/// What a claimed parse of `FuncType` says about the bytes at this point.
#[verifier::rlimit(100)]
proof fn lemma_err_func_type_func_type_0_mismatch(buffer: Seq<u8>, c0: Seq<u8>)
    requires
        <FuncType as Decode>::complete(),
        <FuncType as Decode>::dec_ok(buffer),
        c0 == buffer,
    ensures
        c0.len() >= 1 && c0[0] == 96u8,
{
    let (w, e) = choose|w: SpecFuncType, e: Seq<u8>|
        <FuncType as Encode>::spec_wf(w) && buffer == <FuncType as Encode>::spec_enc(w)
            + e && <FuncType as Decode>::tail_stop(e);
    assert(buffer =~= seq![96u8] + (<ResultType as Encode>::spec_enc(w.0) + (<ResultType as Encode>::spec_enc(w.1) + (e))));
    assert(c0 == seq![96u8] + (<ResultType as Encode>::spec_enc(w.0) + (<ResultType as Encode>::spec_enc(w.1) + (e))));
    assert(c0[0] == 96u8);
}

/// What a claimed parse of `FuncType` says about the bytes at this point.
#[verifier::rlimit(100)]
proof fn lemma_err_func_type_func_type_1_fail(buffer: Seq<u8>, c0: Seq<u8>, c1: Seq<u8>)
    requires
        <FuncType as Decode>::complete(),
        <FuncType as Decode>::dec_ok(buffer),
        c0 == buffer,
        c0 == seq![96u8] + c1,
    ensures
        <ResultType as Decode>::dec_ok(c1),
{
    let (w, e) = choose|w: SpecFuncType, e: Seq<u8>|
        <FuncType as Encode>::spec_wf(w) && buffer == <FuncType as Encode>::spec_enc(w)
            + e && <FuncType as Decode>::tail_stop(e);
    assert(buffer =~= seq![96u8] + (<ResultType as Encode>::spec_enc(w.0) + (<ResultType as Encode>::spec_enc(w.1) + (e))));
    lemma_concat_cancel(seq![96u8], c1, seq![96u8], <ResultType as Encode>::spec_enc(w.0) + (<ResultType as Encode>::spec_enc(w.1) + (e)));
    assert(c1 == <ResultType as Encode>::spec_enc(w.0) + (<ResultType as Encode>::spec_enc(w.1) + (e)));
    assert(c1 == <ResultType as Encode>::spec_enc(w.0) + (<ResultType as Encode>::spec_enc(w.1) + (e)));
    <ResultType as Decode>::lemma_plain(<ResultType as Encode>::spec_enc(w.1) + (e));
    <ResultType as Decode>::lemma_covers(w.0, <ResultType as Encode>::spec_enc(w.1) + (e));
    assert(<ResultType as Decode>::dec_ok(c1));
}

/// What a claimed parse of `FuncType` says about the bytes at this point.
#[verifier::rlimit(100)]
proof fn lemma_err_func_type_func_type_2_fail(buffer: Seq<u8>, c0: Seq<u8>, c1: Seq<u8>, c2: Seq<u8>, w1: SpecResultType)
    requires
        <FuncType as Decode>::complete(),
        <FuncType as Decode>::dec_ok(buffer),
        c0 == buffer,
        c0 == seq![96u8] + c1,
        c1 == <ResultType as Encode>::spec_enc(w1) + c2,
        <ResultType as Encode>::spec_wf(w1),
        <ResultType as Decode>::tail_stop(c2),
    ensures
        <ResultType as Decode>::dec_ok(c2),
{
    let (w, e) = choose|w: SpecFuncType, e: Seq<u8>|
        <FuncType as Encode>::spec_wf(w) && buffer == <FuncType as Encode>::spec_enc(w)
            + e && <FuncType as Decode>::tail_stop(e);
    assert(buffer =~= seq![96u8] + (<ResultType as Encode>::spec_enc(w.0) + (<ResultType as Encode>::spec_enc(w.1) + (e))));
    lemma_concat_cancel(seq![96u8], c1, seq![96u8], <ResultType as Encode>::spec_enc(w.0) + (<ResultType as Encode>::spec_enc(w.1) + (e)));
    assert(c1 == <ResultType as Encode>::spec_enc(w.0) + (<ResultType as Encode>::spec_enc(w.1) + (e)));
    <ResultType as Decode>::lemma_plain(c2);
    <ResultType as Decode>::lemma_plain(<ResultType as Encode>::spec_enc(w.1) + (e));
    <ResultType as Decode>::lemma_unamb(w1, w.0, c2, <ResultType as Encode>::spec_enc(w.1) + (e));
    assert(c2 == <ResultType as Encode>::spec_enc(w.1) + (e));
    assert(c2 == <ResultType as Encode>::spec_enc(w.1) + (e));
    <ResultType as Decode>::lemma_plain(e);
    <ResultType as Decode>::lemma_covers(w.1, e);
    assert(<ResultType as Decode>::dec_ok(c2));
}

/// `ResultType` non-terminal of the binary grammar.
#[derive(Debug, PartialEq)]
pub struct ResultType(pub Vec<ValType>);

/// Deep view of [`ResultType`]: the same shape over abstract sequences.
pub struct SpecResultType(pub Seq<ValType>);

impl DeepView for ResultType {
    type V = SpecResultType;

    open spec fn deep_view(&self) -> SpecResultType {
        SpecResultType(self.0.deep_view())
    }
}

impl Encode for ResultType {
    open spec fn spec_enc(v: SpecResultType) -> Seq<u8> {
        <Vec<ValType> as Encode>::spec_enc(v.0)
    }

    open spec fn spec_wf(v: SpecResultType) -> bool {
        <Vec<ValType> as Encode>::spec_wf(v.0)
    }

    #[verifier::rlimit(100)]
    fn encode(&self, buffer: &mut Vec<u8>) {
        self.0.encode(buffer);
        assert(buffer@ =~= old(buffer)@ + <Vec<ValType> as Encode>::spec_enc(self.0.deep_view()));
        assert(buffer@ =~= old(buffer)@ + Self::spec_enc(self.deep_view()));
    }
}

impl Decode for ResultType {
    open spec fn complete() -> bool {
        <Vec<ValType> as Decode>::complete()
    }

    #[verifier::rlimit(100)]
    proof fn lemma_plain(s: Seq<u8>) {
        assert forall|v: SpecResultType| Self::spec_enc(v).len() >= 1 by {
            <Vec<ValType> as Decode>::lemma_plain(s);
            assert(Self::spec_enc(v) =~= <Vec<ValType> as Encode>::spec_enc(v.0));
        }
        if Self::dec_ok(Seq::<u8>::empty()) {
            let (v, e) = choose|v: SpecResultType, e: Seq<u8>|
                Self::spec_wf(v) && Seq::<u8>::empty() == Self::spec_enc(v) + e
                    && Self::tail_stop(e);
            assert(Self::spec_enc(v).len() >= 1);
            assert(false);
        }
    }

    #[verifier::rlimit(100)]
    proof fn lemma_unamb(v1: SpecResultType, v2: SpecResultType, e1: Seq<u8>, e2: Seq<u8>) {
        assert(Self::spec_enc(v1) + e1 =~= <Vec<ValType> as Encode>::spec_enc(v1.0) + (e1));
        assert(Self::spec_enc(v2) + e2 =~= <Vec<ValType> as Encode>::spec_enc(v2.0) + (e2));
        <Vec<ValType> as Decode>::lemma_plain(e1);
        <Vec<ValType> as Decode>::lemma_plain(e2);
        <Vec<ValType> as Decode>::lemma_unamb(v1.0, v2.0, e1, e2);
        assert(e1 == e2);
        assert(v1 == SpecResultType(v1.0) && v2 == SpecResultType(v2.0));
    }

    proof fn lemma_covers(v: Self::V, e: Seq<u8>) {
        assert(Self::spec_wf(v) && Self::spec_enc(v) + e == Self::spec_enc(v) + e
            && Self::tail_stop(e));
    }

    #[verifier::rlimit(100)]
    fn decode(buffer: &[u8]) -> (r: DecodeResult<Self>) {
        let cur0 = buffer;
        let (f0, cur1) = match <Vec<ValType> as Decode>::decode(cur0) {
            Ok(p) => p,
            Err(_) => {
                proof {
                    if Self::complete() && Self::dec_ok(buffer@) {
                        lemma_err_result_type_result_type_0_fail(buffer@, cur0@);
                    }
                }
                return Err(DecodeError::Error);
            },
        };
        assert(buffer@ =~= <Vec<ValType> as Encode>::spec_enc(f0.deep_view()) + cur1@);
        let result = ResultType(f0);
        proof {
            assert(Self::spec_enc(result.deep_view()) =~= <Vec<ValType> as Encode>::spec_enc(f0.deep_view()));
            assert(buffer@ =~= Self::spec_enc(result.deep_view()) + cur1@);
            if Self::complete() {
                assert(Self::dec_ok(buffer@)) by {
                    assert(Self::spec_wf(result.deep_view()) && buffer@
                        == Self::spec_enc(result.deep_view()) + cur1@
                        && Self::tail_stop(cur1@));
                }
            }
        }
        Ok((result, cur1))
    }
}

/// What a claimed parse of `ResultType` says about the bytes at this point.
#[verifier::rlimit(100)]
proof fn lemma_err_result_type_result_type_0_fail(buffer: Seq<u8>, c0: Seq<u8>)
    requires
        <ResultType as Decode>::complete(),
        <ResultType as Decode>::dec_ok(buffer),
        c0 == buffer,
    ensures
        <Vec<ValType> as Decode>::dec_ok(c0),
{
    let (w, e) = choose|w: SpecResultType, e: Seq<u8>|
        <ResultType as Encode>::spec_wf(w) && buffer == <ResultType as Encode>::spec_enc(w)
            + e && <ResultType as Decode>::tail_stop(e);
    assert(buffer =~= <Vec<ValType> as Encode>::spec_enc(w.0) + (e));
    assert(c0 == <Vec<ValType> as Encode>::spec_enc(w.0) + (e));
    <Vec<ValType> as Decode>::lemma_plain(e);
    <Vec<ValType> as Decode>::lemma_covers(w.0, e);
    assert(<Vec<ValType> as Decode>::dec_ok(c0));
}

/// `Import` non-terminal of the binary grammar.
#[derive(Debug, PartialEq)]
pub struct Import(pub Name, pub Name, pub ImportDesc);

/// Deep view of [`Import`]: the same shape over abstract sequences.
pub struct SpecImport(pub Seq<char>, pub Seq<char>, pub ImportDesc);

impl DeepView for Import {
    type V = SpecImport;

    open spec fn deep_view(&self) -> SpecImport {
        SpecImport(self.0.deep_view(), self.1.deep_view(), self.2.deep_view())
    }
}

impl Encode for Import {
    open spec fn spec_enc(v: SpecImport) -> Seq<u8> {
        <Name as Encode>::spec_enc(v.0) + <Name as Encode>::spec_enc(v.1) + <ImportDesc as Encode>::spec_enc(v.2)
    }

    open spec fn spec_wf(v: SpecImport) -> bool {
        <Name as Encode>::spec_wf(v.0) && <Name as Encode>::spec_wf(v.1) && <ImportDesc as Encode>::spec_wf(v.2)
    }

    #[verifier::rlimit(100)]
    fn encode(&self, buffer: &mut Vec<u8>) {
        self.0.encode(buffer);
        assert(buffer@ =~= old(buffer)@ + <Name as Encode>::spec_enc(self.0.deep_view()));
        self.1.encode(buffer);
        assert(buffer@ =~= old(buffer)@ + <Name as Encode>::spec_enc(self.0.deep_view()) + <Name as Encode>::spec_enc(self.1.deep_view()));
        self.2.encode(buffer);
        assert(buffer@ =~= old(buffer)@ + <Name as Encode>::spec_enc(self.0.deep_view()) + <Name as Encode>::spec_enc(self.1.deep_view()) + <ImportDesc as Encode>::spec_enc(self.2.deep_view()));
        assert(buffer@ =~= old(buffer)@ + Self::spec_enc(self.deep_view()));
    }
}

impl Decode for Import {
    open spec fn complete() -> bool {
        <Name as Decode>::complete() && <ImportDesc as Decode>::complete()
    }

    #[verifier::rlimit(100)]
    proof fn lemma_plain(s: Seq<u8>) {
        assert forall|v: SpecImport| Self::spec_enc(v).len() >= 1 by {
            <Name as Decode>::lemma_plain(s);
            assert(Self::spec_enc(v) =~= <Name as Encode>::spec_enc(v.0) + <Name as Encode>::spec_enc(v.1) + <ImportDesc as Encode>::spec_enc(v.2));
        }
        if Self::dec_ok(Seq::<u8>::empty()) {
            let (v, e) = choose|v: SpecImport, e: Seq<u8>|
                Self::spec_wf(v) && Seq::<u8>::empty() == Self::spec_enc(v) + e
                    && Self::tail_stop(e);
            assert(Self::spec_enc(v).len() >= 1);
            assert(false);
        }
    }

    #[verifier::rlimit(100)]
    proof fn lemma_unamb(v1: SpecImport, v2: SpecImport, e1: Seq<u8>, e2: Seq<u8>) {
        assert(Self::spec_enc(v1) + e1 =~= <Name as Encode>::spec_enc(v1.0) + (<Name as Encode>::spec_enc(v1.1) + (<ImportDesc as Encode>::spec_enc(v1.2) + (e1))));
        assert(Self::spec_enc(v2) + e2 =~= <Name as Encode>::spec_enc(v2.0) + (<Name as Encode>::spec_enc(v2.1) + (<ImportDesc as Encode>::spec_enc(v2.2) + (e2))));
        <Name as Decode>::lemma_plain(<Name as Encode>::spec_enc(v1.1) + (<ImportDesc as Encode>::spec_enc(v1.2) + (e1)));
        <Name as Decode>::lemma_plain(<Name as Encode>::spec_enc(v2.1) + (<ImportDesc as Encode>::spec_enc(v2.2) + (e2)));
        <Name as Decode>::lemma_unamb(v1.0, v2.0, <Name as Encode>::spec_enc(v1.1) + (<ImportDesc as Encode>::spec_enc(v1.2) + (e1)), <Name as Encode>::spec_enc(v2.1) + (<ImportDesc as Encode>::spec_enc(v2.2) + (e2)));
        <Name as Decode>::lemma_plain(<ImportDesc as Encode>::spec_enc(v1.2) + (e1));
        <Name as Decode>::lemma_plain(<ImportDesc as Encode>::spec_enc(v2.2) + (e2));
        <Name as Decode>::lemma_unamb(v1.1, v2.1, <ImportDesc as Encode>::spec_enc(v1.2) + (e1), <ImportDesc as Encode>::spec_enc(v2.2) + (e2));
        <ImportDesc as Decode>::lemma_plain(e1);
        <ImportDesc as Decode>::lemma_plain(e2);
        <ImportDesc as Decode>::lemma_unamb(v1.2, v2.2, e1, e2);
        assert(e1 == e2);
        assert(v1 == SpecImport(v1.0, v1.1, v1.2) && v2 == SpecImport(v2.0, v2.1, v2.2));
    }

    proof fn lemma_covers(v: Self::V, e: Seq<u8>) {
        assert(Self::spec_wf(v) && Self::spec_enc(v) + e == Self::spec_enc(v) + e
            && Self::tail_stop(e));
    }

    #[verifier::rlimit(100)]
    fn decode(buffer: &[u8]) -> (r: DecodeResult<Self>) {
        let cur0 = buffer;
        let (f0, cur1) = match <Name as Decode>::decode(cur0) {
            Ok(p) => p,
            Err(_) => {
                proof {
                    if Self::complete() && Self::dec_ok(buffer@) {
                        lemma_err_import_import_0_fail(buffer@, cur0@);
                    }
                }
                return Err(DecodeError::Error);
            },
        };
        assert(buffer@ =~= <Name as Encode>::spec_enc(f0.deep_view()) + cur1@);
        let (f1, cur2) = match <Name as Decode>::decode(cur1) {
            Ok(p) => p,
            Err(_) => {
                proof {
                    if Self::complete() && Self::dec_ok(buffer@) {
                        lemma_err_import_import_1_fail(buffer@, cur0@, cur1@, f0.deep_view());
                    }
                }
                return Err(DecodeError::Error);
            },
        };
        assert(buffer@ =~= <Name as Encode>::spec_enc(f0.deep_view()) + <Name as Encode>::spec_enc(f1.deep_view()) + cur2@);
        let (f2, cur3) = match <ImportDesc as Decode>::decode(cur2) {
            Ok(p) => p,
            Err(_) => {
                proof {
                    if Self::complete() && Self::dec_ok(buffer@) {
                        lemma_err_import_import_2_fail(buffer@, cur0@, cur1@, f0.deep_view(), cur2@, f1.deep_view());
                    }
                }
                return Err(DecodeError::Error);
            },
        };
        assert(buffer@ =~= <Name as Encode>::spec_enc(f0.deep_view()) + <Name as Encode>::spec_enc(f1.deep_view()) + <ImportDesc as Encode>::spec_enc(f2.deep_view()) + cur3@);
        let result = Import(f0, f1, f2);
        proof {
            assert(Self::spec_enc(result.deep_view()) =~= <Name as Encode>::spec_enc(f0.deep_view()) + <Name as Encode>::spec_enc(f1.deep_view()) + <ImportDesc as Encode>::spec_enc(f2.deep_view()));
            assert(buffer@ =~= Self::spec_enc(result.deep_view()) + cur3@);
            if Self::complete() {
                assert(Self::dec_ok(buffer@)) by {
                    assert(Self::spec_wf(result.deep_view()) && buffer@
                        == Self::spec_enc(result.deep_view()) + cur3@
                        && Self::tail_stop(cur3@));
                }
            }
        }
        Ok((result, cur3))
    }
}

/// What a claimed parse of `Import` says about the bytes at this point.
#[verifier::rlimit(100)]
proof fn lemma_err_import_import_0_fail(buffer: Seq<u8>, c0: Seq<u8>)
    requires
        <Import as Decode>::complete(),
        <Import as Decode>::dec_ok(buffer),
        c0 == buffer,
    ensures
        <Name as Decode>::dec_ok(c0),
{
    let (w, e) = choose|w: SpecImport, e: Seq<u8>|
        <Import as Encode>::spec_wf(w) && buffer == <Import as Encode>::spec_enc(w)
            + e && <Import as Decode>::tail_stop(e);
    assert(buffer =~= <Name as Encode>::spec_enc(w.0) + (<Name as Encode>::spec_enc(w.1) + (<ImportDesc as Encode>::spec_enc(w.2) + (e))));
    assert(c0 == <Name as Encode>::spec_enc(w.0) + (<Name as Encode>::spec_enc(w.1) + (<ImportDesc as Encode>::spec_enc(w.2) + (e))));
    <Name as Decode>::lemma_plain(<Name as Encode>::spec_enc(w.1) + (<ImportDesc as Encode>::spec_enc(w.2) + (e)));
    <Name as Decode>::lemma_covers(w.0, <Name as Encode>::spec_enc(w.1) + (<ImportDesc as Encode>::spec_enc(w.2) + (e)));
    assert(<Name as Decode>::dec_ok(c0));
}

/// What a claimed parse of `Import` says about the bytes at this point.
#[verifier::rlimit(100)]
proof fn lemma_err_import_import_1_fail(buffer: Seq<u8>, c0: Seq<u8>, c1: Seq<u8>, w0: Seq<char>)
    requires
        <Import as Decode>::complete(),
        <Import as Decode>::dec_ok(buffer),
        c0 == buffer,
        c0 == <Name as Encode>::spec_enc(w0) + c1,
        <Name as Encode>::spec_wf(w0),
        <Name as Decode>::tail_stop(c1),
    ensures
        <Name as Decode>::dec_ok(c1),
{
    let (w, e) = choose|w: SpecImport, e: Seq<u8>|
        <Import as Encode>::spec_wf(w) && buffer == <Import as Encode>::spec_enc(w)
            + e && <Import as Decode>::tail_stop(e);
    assert(buffer =~= <Name as Encode>::spec_enc(w.0) + (<Name as Encode>::spec_enc(w.1) + (<ImportDesc as Encode>::spec_enc(w.2) + (e))));
    <Name as Decode>::lemma_plain(c1);
    <Name as Decode>::lemma_plain(<Name as Encode>::spec_enc(w.1) + (<ImportDesc as Encode>::spec_enc(w.2) + (e)));
    <Name as Decode>::lemma_unamb(w0, w.0, c1, <Name as Encode>::spec_enc(w.1) + (<ImportDesc as Encode>::spec_enc(w.2) + (e)));
    assert(c1 == <Name as Encode>::spec_enc(w.1) + (<ImportDesc as Encode>::spec_enc(w.2) + (e)));
    assert(c1 == <Name as Encode>::spec_enc(w.1) + (<ImportDesc as Encode>::spec_enc(w.2) + (e)));
    <Name as Decode>::lemma_plain(<ImportDesc as Encode>::spec_enc(w.2) + (e));
    <Name as Decode>::lemma_covers(w.1, <ImportDesc as Encode>::spec_enc(w.2) + (e));
    assert(<Name as Decode>::dec_ok(c1));
}

/// What a claimed parse of `Import` says about the bytes at this point.
#[verifier::rlimit(100)]
proof fn lemma_err_import_import_2_fail(buffer: Seq<u8>, c0: Seq<u8>, c1: Seq<u8>, w0: Seq<char>, c2: Seq<u8>, w1: Seq<char>)
    requires
        <Import as Decode>::complete(),
        <Import as Decode>::dec_ok(buffer),
        c0 == buffer,
        c0 == <Name as Encode>::spec_enc(w0) + c1,
        <Name as Encode>::spec_wf(w0),
        <Name as Decode>::tail_stop(c1),
        c1 == <Name as Encode>::spec_enc(w1) + c2,
        <Name as Encode>::spec_wf(w1),
        <Name as Decode>::tail_stop(c2),
    ensures
        <ImportDesc as Decode>::dec_ok(c2),
{
    let (w, e) = choose|w: SpecImport, e: Seq<u8>|
        <Import as Encode>::spec_wf(w) && buffer == <Import as Encode>::spec_enc(w)
            + e && <Import as Decode>::tail_stop(e);
    assert(buffer =~= <Name as Encode>::spec_enc(w.0) + (<Name as Encode>::spec_enc(w.1) + (<ImportDesc as Encode>::spec_enc(w.2) + (e))));
    <Name as Decode>::lemma_plain(c1);
    <Name as Decode>::lemma_plain(<Name as Encode>::spec_enc(w.1) + (<ImportDesc as Encode>::spec_enc(w.2) + (e)));
    <Name as Decode>::lemma_unamb(w0, w.0, c1, <Name as Encode>::spec_enc(w.1) + (<ImportDesc as Encode>::spec_enc(w.2) + (e)));
    assert(c1 == <Name as Encode>::spec_enc(w.1) + (<ImportDesc as Encode>::spec_enc(w.2) + (e)));
    <Name as Decode>::lemma_plain(c2);
    <Name as Decode>::lemma_plain(<ImportDesc as Encode>::spec_enc(w.2) + (e));
    <Name as Decode>::lemma_unamb(w1, w.1, c2, <ImportDesc as Encode>::spec_enc(w.2) + (e));
    assert(c2 == <ImportDesc as Encode>::spec_enc(w.2) + (e));
    assert(c2 == <ImportDesc as Encode>::spec_enc(w.2) + (e));
    <ImportDesc as Decode>::lemma_plain(e);
    <ImportDesc as Decode>::lemma_covers(w.2, e);
    assert(<ImportDesc as Decode>::dec_ok(c2));
}

/// `Table` non-terminal of the binary grammar.
#[derive(Debug, PartialEq)]
pub struct Table(pub TableType);

impl DeepView for Table {
    type V = Table;

    open spec fn deep_view(&self) -> Table {
        *self
    }
}

impl Encode for Table {
    open spec fn spec_enc(v: Table) -> Seq<u8> {
        <TableType as Encode>::spec_enc(v.0)
    }

    open spec fn spec_wf(v: Table) -> bool {
        <TableType as Encode>::spec_wf(v.0)
    }

    #[verifier::rlimit(100)]
    fn encode(&self, buffer: &mut Vec<u8>) {
        self.0.encode(buffer);
        assert(buffer@ =~= old(buffer)@ + <TableType as Encode>::spec_enc(self.0.deep_view()));
        assert(buffer@ =~= old(buffer)@ + Self::spec_enc(self.deep_view()));
    }
}

impl Decode for Table {
    open spec fn complete() -> bool {
        <TableType as Decode>::complete()
    }

    #[verifier::rlimit(100)]
    proof fn lemma_plain(s: Seq<u8>) {
        assert forall|v: Table| Self::spec_enc(v).len() >= 1 by {
            <TableType as Decode>::lemma_plain(s);
            assert(Self::spec_enc(v) =~= <TableType as Encode>::spec_enc(v.0));
        }
        if Self::dec_ok(Seq::<u8>::empty()) {
            let (v, e) = choose|v: Table, e: Seq<u8>|
                Self::spec_wf(v) && Seq::<u8>::empty() == Self::spec_enc(v) + e
                    && Self::tail_stop(e);
            assert(Self::spec_enc(v).len() >= 1);
            assert(false);
        }
    }

    #[verifier::rlimit(100)]
    proof fn lemma_unamb(v1: Table, v2: Table, e1: Seq<u8>, e2: Seq<u8>) {
        assert(Self::spec_enc(v1) + e1 =~= <TableType as Encode>::spec_enc(v1.0) + (e1));
        assert(Self::spec_enc(v2) + e2 =~= <TableType as Encode>::spec_enc(v2.0) + (e2));
        <TableType as Decode>::lemma_plain(e1);
        <TableType as Decode>::lemma_plain(e2);
        <TableType as Decode>::lemma_unamb(v1.0, v2.0, e1, e2);
        assert(e1 == e2);
        assert(v1 == Table(v1.0) && v2 == Table(v2.0));
    }

    proof fn lemma_covers(v: Self::V, e: Seq<u8>) {
        assert(Self::spec_wf(v) && Self::spec_enc(v) + e == Self::spec_enc(v) + e
            && Self::tail_stop(e));
    }

    #[verifier::rlimit(100)]
    fn decode(buffer: &[u8]) -> (r: DecodeResult<Self>) {
        let cur0 = buffer;
        let (f0, cur1) = match <TableType as Decode>::decode(cur0) {
            Ok(p) => p,
            Err(_) => {
                proof {
                    if Self::complete() && Self::dec_ok(buffer@) {
                        lemma_err_table_table_0_fail(buffer@, cur0@);
                    }
                }
                return Err(DecodeError::Error);
            },
        };
        assert(buffer@ =~= <TableType as Encode>::spec_enc(f0.deep_view()) + cur1@);
        let result = Table(f0);
        proof {
            assert(Self::spec_enc(result.deep_view()) =~= <TableType as Encode>::spec_enc(f0.deep_view()));
            assert(buffer@ =~= Self::spec_enc(result.deep_view()) + cur1@);
            if Self::complete() {
                assert(Self::dec_ok(buffer@)) by {
                    assert(Self::spec_wf(result.deep_view()) && buffer@
                        == Self::spec_enc(result.deep_view()) + cur1@
                        && Self::tail_stop(cur1@));
                }
            }
        }
        Ok((result, cur1))
    }
}

/// What a claimed parse of `Table` says about the bytes at this point.
#[verifier::rlimit(100)]
proof fn lemma_err_table_table_0_fail(buffer: Seq<u8>, c0: Seq<u8>)
    requires
        <Table as Decode>::complete(),
        <Table as Decode>::dec_ok(buffer),
        c0 == buffer,
    ensures
        <TableType as Decode>::dec_ok(c0),
{
    let (w, e) = choose|w: Table, e: Seq<u8>|
        <Table as Encode>::spec_wf(w) && buffer == <Table as Encode>::spec_enc(w)
            + e && <Table as Decode>::tail_stop(e);
    assert(buffer =~= <TableType as Encode>::spec_enc(w.0) + (e));
    assert(c0 == <TableType as Encode>::spec_enc(w.0) + (e));
    <TableType as Decode>::lemma_plain(e);
    <TableType as Decode>::lemma_covers(w.0, e);
    assert(<TableType as Decode>::dec_ok(c0));
}

/// `Mem` non-terminal of the binary grammar.
#[derive(Debug, PartialEq)]
pub struct Mem(pub MemType);

impl DeepView for Mem {
    type V = Mem;

    open spec fn deep_view(&self) -> Mem {
        *self
    }
}

impl Encode for Mem {
    open spec fn spec_enc(v: Mem) -> Seq<u8> {
        <MemType as Encode>::spec_enc(v.0)
    }

    open spec fn spec_wf(v: Mem) -> bool {
        <MemType as Encode>::spec_wf(v.0)
    }

    #[verifier::rlimit(100)]
    fn encode(&self, buffer: &mut Vec<u8>) {
        self.0.encode(buffer);
        assert(buffer@ =~= old(buffer)@ + <MemType as Encode>::spec_enc(self.0.deep_view()));
        assert(buffer@ =~= old(buffer)@ + Self::spec_enc(self.deep_view()));
    }
}

impl Decode for Mem {
    open spec fn complete() -> bool {
        <MemType as Decode>::complete()
    }

    #[verifier::rlimit(100)]
    proof fn lemma_plain(s: Seq<u8>) {
        assert forall|v: Mem| Self::spec_enc(v).len() >= 1 by {
            <MemType as Decode>::lemma_plain(s);
            assert(Self::spec_enc(v) =~= <MemType as Encode>::spec_enc(v.0));
        }
        if Self::dec_ok(Seq::<u8>::empty()) {
            let (v, e) = choose|v: Mem, e: Seq<u8>|
                Self::spec_wf(v) && Seq::<u8>::empty() == Self::spec_enc(v) + e
                    && Self::tail_stop(e);
            assert(Self::spec_enc(v).len() >= 1);
            assert(false);
        }
    }

    #[verifier::rlimit(100)]
    proof fn lemma_unamb(v1: Mem, v2: Mem, e1: Seq<u8>, e2: Seq<u8>) {
        assert(Self::spec_enc(v1) + e1 =~= <MemType as Encode>::spec_enc(v1.0) + (e1));
        assert(Self::spec_enc(v2) + e2 =~= <MemType as Encode>::spec_enc(v2.0) + (e2));
        <MemType as Decode>::lemma_plain(e1);
        <MemType as Decode>::lemma_plain(e2);
        <MemType as Decode>::lemma_unamb(v1.0, v2.0, e1, e2);
        assert(e1 == e2);
        assert(v1 == Mem(v1.0) && v2 == Mem(v2.0));
    }

    proof fn lemma_covers(v: Self::V, e: Seq<u8>) {
        assert(Self::spec_wf(v) && Self::spec_enc(v) + e == Self::spec_enc(v) + e
            && Self::tail_stop(e));
    }

    #[verifier::rlimit(100)]
    fn decode(buffer: &[u8]) -> (r: DecodeResult<Self>) {
        let cur0 = buffer;
        let (f0, cur1) = match <MemType as Decode>::decode(cur0) {
            Ok(p) => p,
            Err(_) => {
                proof {
                    if Self::complete() && Self::dec_ok(buffer@) {
                        lemma_err_mem_mem_0_fail(buffer@, cur0@);
                    }
                }
                return Err(DecodeError::Error);
            },
        };
        assert(buffer@ =~= <MemType as Encode>::spec_enc(f0.deep_view()) + cur1@);
        let result = Mem(f0);
        proof {
            assert(Self::spec_enc(result.deep_view()) =~= <MemType as Encode>::spec_enc(f0.deep_view()));
            assert(buffer@ =~= Self::spec_enc(result.deep_view()) + cur1@);
            if Self::complete() {
                assert(Self::dec_ok(buffer@)) by {
                    assert(Self::spec_wf(result.deep_view()) && buffer@
                        == Self::spec_enc(result.deep_view()) + cur1@
                        && Self::tail_stop(cur1@));
                }
            }
        }
        Ok((result, cur1))
    }
}

/// What a claimed parse of `Mem` says about the bytes at this point.
#[verifier::rlimit(100)]
proof fn lemma_err_mem_mem_0_fail(buffer: Seq<u8>, c0: Seq<u8>)
    requires
        <Mem as Decode>::complete(),
        <Mem as Decode>::dec_ok(buffer),
        c0 == buffer,
    ensures
        <MemType as Decode>::dec_ok(c0),
{
    let (w, e) = choose|w: Mem, e: Seq<u8>|
        <Mem as Encode>::spec_wf(w) && buffer == <Mem as Encode>::spec_enc(w)
            + e && <Mem as Decode>::tail_stop(e);
    assert(buffer =~= <MemType as Encode>::spec_enc(w.0) + (e));
    assert(c0 == <MemType as Encode>::spec_enc(w.0) + (e));
    <MemType as Decode>::lemma_plain(e);
    <MemType as Decode>::lemma_covers(w.0, e);
    assert(<MemType as Decode>::dec_ok(c0));
}

/// `Global` non-terminal of the binary grammar.
#[derive(Debug, PartialEq)]
pub struct Global(pub GlobalType, pub Expr);

/// Deep view of [`Global`]: the same shape over abstract sequences.
pub struct SpecGlobal(pub GlobalType, pub Seq<SpecInstr>);

impl DeepView for Global {
    type V = SpecGlobal;

    open spec fn deep_view(&self) -> SpecGlobal {
        SpecGlobal(self.0.deep_view(), self.1.deep_view())
    }
}

impl Encode for Global {
    open spec fn spec_enc(v: SpecGlobal) -> Seq<u8> {
        <GlobalType as Encode>::spec_enc(v.0) + <Expr as Encode>::spec_enc(v.1)
    }

    open spec fn spec_wf(v: SpecGlobal) -> bool {
        <GlobalType as Encode>::spec_wf(v.0) && <Expr as Encode>::spec_wf(v.1)
    }

    #[verifier::rlimit(100)]
    fn encode(&self, buffer: &mut Vec<u8>) {
        self.0.encode(buffer);
        assert(buffer@ =~= old(buffer)@ + <GlobalType as Encode>::spec_enc(self.0.deep_view()));
        self.1.encode(buffer);
        assert(buffer@ =~= old(buffer)@ + <GlobalType as Encode>::spec_enc(self.0.deep_view()) + <Expr as Encode>::spec_enc(self.1.deep_view()));
        assert(buffer@ =~= old(buffer)@ + Self::spec_enc(self.deep_view()));
    }
}

impl Decode for Global {
    open spec fn complete() -> bool {
        <GlobalType as Decode>::complete() && <Expr as Decode>::complete()
    }

    #[verifier::rlimit(100)]
    proof fn lemma_plain(s: Seq<u8>) {
        assert forall|v: SpecGlobal| Self::spec_enc(v).len() >= 1 by {
            <GlobalType as Decode>::lemma_plain(s);
            assert(Self::spec_enc(v) =~= <GlobalType as Encode>::spec_enc(v.0) + <Expr as Encode>::spec_enc(v.1));
        }
        if Self::dec_ok(Seq::<u8>::empty()) {
            let (v, e) = choose|v: SpecGlobal, e: Seq<u8>|
                Self::spec_wf(v) && Seq::<u8>::empty() == Self::spec_enc(v) + e
                    && Self::tail_stop(e);
            assert(Self::spec_enc(v).len() >= 1);
            assert(false);
        }
    }

    #[verifier::rlimit(100)]
    proof fn lemma_unamb(v1: SpecGlobal, v2: SpecGlobal, e1: Seq<u8>, e2: Seq<u8>) {
        assert(Self::spec_enc(v1) + e1 =~= <GlobalType as Encode>::spec_enc(v1.0) + (<Expr as Encode>::spec_enc(v1.1) + (e1)));
        assert(Self::spec_enc(v2) + e2 =~= <GlobalType as Encode>::spec_enc(v2.0) + (<Expr as Encode>::spec_enc(v2.1) + (e2)));
        <GlobalType as Decode>::lemma_plain(<Expr as Encode>::spec_enc(v1.1) + (e1));
        <GlobalType as Decode>::lemma_plain(<Expr as Encode>::spec_enc(v2.1) + (e2));
        <GlobalType as Decode>::lemma_unamb(v1.0, v2.0, <Expr as Encode>::spec_enc(v1.1) + (e1), <Expr as Encode>::spec_enc(v2.1) + (e2));
        <Expr as Decode>::lemma_plain(e1);
        <Expr as Decode>::lemma_plain(e2);
        <Expr as Decode>::lemma_unamb(v1.1, v2.1, e1, e2);
        assert(e1 == e2);
        assert(v1 == SpecGlobal(v1.0, v1.1) && v2 == SpecGlobal(v2.0, v2.1));
    }

    proof fn lemma_covers(v: Self::V, e: Seq<u8>) {
        assert(Self::spec_wf(v) && Self::spec_enc(v) + e == Self::spec_enc(v) + e
            && Self::tail_stop(e));
    }

    #[verifier::rlimit(100)]
    fn decode(buffer: &[u8]) -> (r: DecodeResult<Self>) {
        let cur0 = buffer;
        let (f0, cur1) = match <GlobalType as Decode>::decode(cur0) {
            Ok(p) => p,
            Err(_) => {
                proof {
                    if Self::complete() && Self::dec_ok(buffer@) {
                        lemma_err_global_global_0_fail(buffer@, cur0@);
                    }
                }
                return Err(DecodeError::Error);
            },
        };
        assert(buffer@ =~= <GlobalType as Encode>::spec_enc(f0.deep_view()) + cur1@);
        let (f1, cur2) = match <Expr as Decode>::decode(cur1) {
            Ok(p) => p,
            Err(_) => {
                proof {
                    if Self::complete() && Self::dec_ok(buffer@) {
                        lemma_err_global_global_1_fail(buffer@, cur0@, cur1@, f0.deep_view());
                    }
                }
                return Err(DecodeError::Error);
            },
        };
        assert(buffer@ =~= <GlobalType as Encode>::spec_enc(f0.deep_view()) + <Expr as Encode>::spec_enc(f1.deep_view()) + cur2@);
        let result = Global(f0, f1);
        proof {
            assert(Self::spec_enc(result.deep_view()) =~= <GlobalType as Encode>::spec_enc(f0.deep_view()) + <Expr as Encode>::spec_enc(f1.deep_view()));
            assert(buffer@ =~= Self::spec_enc(result.deep_view()) + cur2@);
            if Self::complete() {
                assert(Self::dec_ok(buffer@)) by {
                    assert(Self::spec_wf(result.deep_view()) && buffer@
                        == Self::spec_enc(result.deep_view()) + cur2@
                        && Self::tail_stop(cur2@));
                }
            }
        }
        Ok((result, cur2))
    }
}

/// What a claimed parse of `Global` says about the bytes at this point.
#[verifier::rlimit(100)]
proof fn lemma_err_global_global_0_fail(buffer: Seq<u8>, c0: Seq<u8>)
    requires
        <Global as Decode>::complete(),
        <Global as Decode>::dec_ok(buffer),
        c0 == buffer,
    ensures
        <GlobalType as Decode>::dec_ok(c0),
{
    let (w, e) = choose|w: SpecGlobal, e: Seq<u8>|
        <Global as Encode>::spec_wf(w) && buffer == <Global as Encode>::spec_enc(w)
            + e && <Global as Decode>::tail_stop(e);
    assert(buffer =~= <GlobalType as Encode>::spec_enc(w.0) + (<Expr as Encode>::spec_enc(w.1) + (e)));
    assert(c0 == <GlobalType as Encode>::spec_enc(w.0) + (<Expr as Encode>::spec_enc(w.1) + (e)));
    <GlobalType as Decode>::lemma_plain(<Expr as Encode>::spec_enc(w.1) + (e));
    <GlobalType as Decode>::lemma_covers(w.0, <Expr as Encode>::spec_enc(w.1) + (e));
    assert(<GlobalType as Decode>::dec_ok(c0));
}

/// What a claimed parse of `Global` says about the bytes at this point.
#[verifier::rlimit(100)]
proof fn lemma_err_global_global_1_fail(buffer: Seq<u8>, c0: Seq<u8>, c1: Seq<u8>, w0: GlobalType)
    requires
        <Global as Decode>::complete(),
        <Global as Decode>::dec_ok(buffer),
        c0 == buffer,
        c0 == <GlobalType as Encode>::spec_enc(w0) + c1,
        <GlobalType as Encode>::spec_wf(w0),
        <GlobalType as Decode>::tail_stop(c1),
    ensures
        <Expr as Decode>::dec_ok(c1),
{
    let (w, e) = choose|w: SpecGlobal, e: Seq<u8>|
        <Global as Encode>::spec_wf(w) && buffer == <Global as Encode>::spec_enc(w)
            + e && <Global as Decode>::tail_stop(e);
    assert(buffer =~= <GlobalType as Encode>::spec_enc(w.0) + (<Expr as Encode>::spec_enc(w.1) + (e)));
    <GlobalType as Decode>::lemma_plain(c1);
    <GlobalType as Decode>::lemma_plain(<Expr as Encode>::spec_enc(w.1) + (e));
    <GlobalType as Decode>::lemma_unamb(w0, w.0, c1, <Expr as Encode>::spec_enc(w.1) + (e));
    assert(c1 == <Expr as Encode>::spec_enc(w.1) + (e));
    assert(c1 == <Expr as Encode>::spec_enc(w.1) + (e));
    <Expr as Decode>::lemma_plain(e);
    <Expr as Decode>::lemma_covers(w.1, e);
    assert(<Expr as Decode>::dec_ok(c1));
}

/// `Export` non-terminal of the binary grammar.
#[derive(Debug, PartialEq)]
pub struct Export(pub Name, pub ExportDesc);

/// Deep view of [`Export`]: the same shape over abstract sequences.
pub struct SpecExport(pub Seq<char>, pub ExportDesc);

impl DeepView for Export {
    type V = SpecExport;

    open spec fn deep_view(&self) -> SpecExport {
        SpecExport(self.0.deep_view(), self.1.deep_view())
    }
}

impl Encode for Export {
    open spec fn spec_enc(v: SpecExport) -> Seq<u8> {
        <Name as Encode>::spec_enc(v.0) + <ExportDesc as Encode>::spec_enc(v.1)
    }

    open spec fn spec_wf(v: SpecExport) -> bool {
        <Name as Encode>::spec_wf(v.0) && <ExportDesc as Encode>::spec_wf(v.1)
    }

    #[verifier::rlimit(100)]
    fn encode(&self, buffer: &mut Vec<u8>) {
        self.0.encode(buffer);
        assert(buffer@ =~= old(buffer)@ + <Name as Encode>::spec_enc(self.0.deep_view()));
        self.1.encode(buffer);
        assert(buffer@ =~= old(buffer)@ + <Name as Encode>::spec_enc(self.0.deep_view()) + <ExportDesc as Encode>::spec_enc(self.1.deep_view()));
        assert(buffer@ =~= old(buffer)@ + Self::spec_enc(self.deep_view()));
    }
}

impl Decode for Export {
    open spec fn complete() -> bool {
        <Name as Decode>::complete() && <ExportDesc as Decode>::complete()
    }

    #[verifier::rlimit(100)]
    proof fn lemma_plain(s: Seq<u8>) {
        assert forall|v: SpecExport| Self::spec_enc(v).len() >= 1 by {
            <Name as Decode>::lemma_plain(s);
            assert(Self::spec_enc(v) =~= <Name as Encode>::spec_enc(v.0) + <ExportDesc as Encode>::spec_enc(v.1));
        }
        if Self::dec_ok(Seq::<u8>::empty()) {
            let (v, e) = choose|v: SpecExport, e: Seq<u8>|
                Self::spec_wf(v) && Seq::<u8>::empty() == Self::spec_enc(v) + e
                    && Self::tail_stop(e);
            assert(Self::spec_enc(v).len() >= 1);
            assert(false);
        }
    }

    #[verifier::rlimit(100)]
    proof fn lemma_unamb(v1: SpecExport, v2: SpecExport, e1: Seq<u8>, e2: Seq<u8>) {
        assert(Self::spec_enc(v1) + e1 =~= <Name as Encode>::spec_enc(v1.0) + (<ExportDesc as Encode>::spec_enc(v1.1) + (e1)));
        assert(Self::spec_enc(v2) + e2 =~= <Name as Encode>::spec_enc(v2.0) + (<ExportDesc as Encode>::spec_enc(v2.1) + (e2)));
        <Name as Decode>::lemma_plain(<ExportDesc as Encode>::spec_enc(v1.1) + (e1));
        <Name as Decode>::lemma_plain(<ExportDesc as Encode>::spec_enc(v2.1) + (e2));
        <Name as Decode>::lemma_unamb(v1.0, v2.0, <ExportDesc as Encode>::spec_enc(v1.1) + (e1), <ExportDesc as Encode>::spec_enc(v2.1) + (e2));
        <ExportDesc as Decode>::lemma_plain(e1);
        <ExportDesc as Decode>::lemma_plain(e2);
        <ExportDesc as Decode>::lemma_unamb(v1.1, v2.1, e1, e2);
        assert(e1 == e2);
        assert(v1 == SpecExport(v1.0, v1.1) && v2 == SpecExport(v2.0, v2.1));
    }

    proof fn lemma_covers(v: Self::V, e: Seq<u8>) {
        assert(Self::spec_wf(v) && Self::spec_enc(v) + e == Self::spec_enc(v) + e
            && Self::tail_stop(e));
    }

    #[verifier::rlimit(100)]
    fn decode(buffer: &[u8]) -> (r: DecodeResult<Self>) {
        let cur0 = buffer;
        let (f0, cur1) = match <Name as Decode>::decode(cur0) {
            Ok(p) => p,
            Err(_) => {
                proof {
                    if Self::complete() && Self::dec_ok(buffer@) {
                        lemma_err_export_export_0_fail(buffer@, cur0@);
                    }
                }
                return Err(DecodeError::Error);
            },
        };
        assert(buffer@ =~= <Name as Encode>::spec_enc(f0.deep_view()) + cur1@);
        let (f1, cur2) = match <ExportDesc as Decode>::decode(cur1) {
            Ok(p) => p,
            Err(_) => {
                proof {
                    if Self::complete() && Self::dec_ok(buffer@) {
                        lemma_err_export_export_1_fail(buffer@, cur0@, cur1@, f0.deep_view());
                    }
                }
                return Err(DecodeError::Error);
            },
        };
        assert(buffer@ =~= <Name as Encode>::spec_enc(f0.deep_view()) + <ExportDesc as Encode>::spec_enc(f1.deep_view()) + cur2@);
        let result = Export(f0, f1);
        proof {
            assert(Self::spec_enc(result.deep_view()) =~= <Name as Encode>::spec_enc(f0.deep_view()) + <ExportDesc as Encode>::spec_enc(f1.deep_view()));
            assert(buffer@ =~= Self::spec_enc(result.deep_view()) + cur2@);
            if Self::complete() {
                assert(Self::dec_ok(buffer@)) by {
                    assert(Self::spec_wf(result.deep_view()) && buffer@
                        == Self::spec_enc(result.deep_view()) + cur2@
                        && Self::tail_stop(cur2@));
                }
            }
        }
        Ok((result, cur2))
    }
}

/// What a claimed parse of `Export` says about the bytes at this point.
#[verifier::rlimit(100)]
proof fn lemma_err_export_export_0_fail(buffer: Seq<u8>, c0: Seq<u8>)
    requires
        <Export as Decode>::complete(),
        <Export as Decode>::dec_ok(buffer),
        c0 == buffer,
    ensures
        <Name as Decode>::dec_ok(c0),
{
    let (w, e) = choose|w: SpecExport, e: Seq<u8>|
        <Export as Encode>::spec_wf(w) && buffer == <Export as Encode>::spec_enc(w)
            + e && <Export as Decode>::tail_stop(e);
    assert(buffer =~= <Name as Encode>::spec_enc(w.0) + (<ExportDesc as Encode>::spec_enc(w.1) + (e)));
    assert(c0 == <Name as Encode>::spec_enc(w.0) + (<ExportDesc as Encode>::spec_enc(w.1) + (e)));
    <Name as Decode>::lemma_plain(<ExportDesc as Encode>::spec_enc(w.1) + (e));
    <Name as Decode>::lemma_covers(w.0, <ExportDesc as Encode>::spec_enc(w.1) + (e));
    assert(<Name as Decode>::dec_ok(c0));
}

/// What a claimed parse of `Export` says about the bytes at this point.
#[verifier::rlimit(100)]
proof fn lemma_err_export_export_1_fail(buffer: Seq<u8>, c0: Seq<u8>, c1: Seq<u8>, w0: Seq<char>)
    requires
        <Export as Decode>::complete(),
        <Export as Decode>::dec_ok(buffer),
        c0 == buffer,
        c0 == <Name as Encode>::spec_enc(w0) + c1,
        <Name as Encode>::spec_wf(w0),
        <Name as Decode>::tail_stop(c1),
    ensures
        <ExportDesc as Decode>::dec_ok(c1),
{
    let (w, e) = choose|w: SpecExport, e: Seq<u8>|
        <Export as Encode>::spec_wf(w) && buffer == <Export as Encode>::spec_enc(w)
            + e && <Export as Decode>::tail_stop(e);
    assert(buffer =~= <Name as Encode>::spec_enc(w.0) + (<ExportDesc as Encode>::spec_enc(w.1) + (e)));
    <Name as Decode>::lemma_plain(c1);
    <Name as Decode>::lemma_plain(<ExportDesc as Encode>::spec_enc(w.1) + (e));
    <Name as Decode>::lemma_unamb(w0, w.0, c1, <ExportDesc as Encode>::spec_enc(w.1) + (e));
    assert(c1 == <ExportDesc as Encode>::spec_enc(w.1) + (e));
    assert(c1 == <ExportDesc as Encode>::spec_enc(w.1) + (e));
    <ExportDesc as Decode>::lemma_plain(e);
    <ExportDesc as Decode>::lemma_covers(w.1, e);
    assert(<ExportDesc as Decode>::dec_ok(c1));
}

/// `Elem` non-terminal of the binary grammar.
#[derive(Debug, PartialEq)]
pub enum Elem {
    E0(Expr, Vec<FuncIdx>),
    E1(ElemKind, Vec<FuncIdx>),
    E2(TableIdx, Expr, ElemKind, Vec<FuncIdx>),
    E3(ElemKind, Vec<FuncIdx>),
    E4(Expr, Vec<Expr>),
    E5(RefType, Vec<Expr>),
    E6(TableIdx, Expr, RefType, Vec<Expr>),
    E7(RefType, Vec<Expr>),
}

/// Deep view of [`Elem`]: the same shape over abstract sequences.
pub enum SpecElem {
    E0(Seq<SpecInstr>, Seq<FuncIdx>),
    E1(ElemKind, Seq<FuncIdx>),
    E2(TableIdx, Seq<SpecInstr>, ElemKind, Seq<FuncIdx>),
    E3(ElemKind, Seq<FuncIdx>),
    E4(Seq<SpecInstr>, Seq<Seq<SpecInstr>>),
    E5(RefType, Seq<Seq<SpecInstr>>),
    E6(TableIdx, Seq<SpecInstr>, RefType, Seq<Seq<SpecInstr>>),
    E7(RefType, Seq<Seq<SpecInstr>>),
}

impl DeepView for Elem {
    type V = SpecElem;

    open spec fn deep_view(&self) -> SpecElem {
        match self {
            Elem::E0(a0, a1) => SpecElem::E0(a0.deep_view(), a1.deep_view()),
            Elem::E1(a0, a1) => SpecElem::E1(a0.deep_view(), a1.deep_view()),
            Elem::E2(a0, a1, a2, a3) => SpecElem::E2(a0.deep_view(), a1.deep_view(), a2.deep_view(), a3.deep_view()),
            Elem::E3(a0, a1) => SpecElem::E3(a0.deep_view(), a1.deep_view()),
            Elem::E4(a0, a1) => SpecElem::E4(a0.deep_view(), a1.deep_view()),
            Elem::E5(a0, a1) => SpecElem::E5(a0.deep_view(), a1.deep_view()),
            Elem::E6(a0, a1, a2, a3) => SpecElem::E6(a0.deep_view(), a1.deep_view(), a2.deep_view(), a3.deep_view()),
            Elem::E7(a0, a1) => SpecElem::E7(a0.deep_view(), a1.deep_view()),
        }
    }
}

impl Encode for Elem {
    open spec fn spec_enc(v: SpecElem) -> Seq<u8> {
        match v {
            SpecElem::E0(a0, a1) => seq![0u8] + <Expr as Encode>::spec_enc(a0) + <Vec<FuncIdx> as Encode>::spec_enc(a1),
            SpecElem::E1(a0, a1) => seq![1u8] + <ElemKind as Encode>::spec_enc(a0) + <Vec<FuncIdx> as Encode>::spec_enc(a1),
            SpecElem::E2(a0, a1, a2, a3) => seq![2u8] + <TableIdx as Encode>::spec_enc(a0) + <Expr as Encode>::spec_enc(a1) + <ElemKind as Encode>::spec_enc(a2) + <Vec<FuncIdx> as Encode>::spec_enc(a3),
            SpecElem::E3(a0, a1) => seq![3u8] + <ElemKind as Encode>::spec_enc(a0) + <Vec<FuncIdx> as Encode>::spec_enc(a1),
            SpecElem::E4(a0, a1) => seq![4u8] + <Expr as Encode>::spec_enc(a0) + <Vec<Expr> as Encode>::spec_enc(a1),
            SpecElem::E5(a0, a1) => seq![5u8] + <RefType as Encode>::spec_enc(a0) + <Vec<Expr> as Encode>::spec_enc(a1),
            SpecElem::E6(a0, a1, a2, a3) => seq![6u8] + <TableIdx as Encode>::spec_enc(a0) + <Expr as Encode>::spec_enc(a1) + <RefType as Encode>::spec_enc(a2) + <Vec<Expr> as Encode>::spec_enc(a3),
            SpecElem::E7(a0, a1) => seq![7u8] + <RefType as Encode>::spec_enc(a0) + <Vec<Expr> as Encode>::spec_enc(a1),
        }
    }

    open spec fn spec_wf(v: SpecElem) -> bool {
        match v {
            SpecElem::E0(a0, a1) => <Expr as Encode>::spec_wf(a0) && <Vec<FuncIdx> as Encode>::spec_wf(a1),
            SpecElem::E1(a0, a1) => <ElemKind as Encode>::spec_wf(a0) && <Vec<FuncIdx> as Encode>::spec_wf(a1),
            SpecElem::E2(a0, a1, a2, a3) => <TableIdx as Encode>::spec_wf(a0) && <Expr as Encode>::spec_wf(a1) && <ElemKind as Encode>::spec_wf(a2) && <Vec<FuncIdx> as Encode>::spec_wf(a3),
            SpecElem::E3(a0, a1) => <ElemKind as Encode>::spec_wf(a0) && <Vec<FuncIdx> as Encode>::spec_wf(a1),
            SpecElem::E4(a0, a1) => <Expr as Encode>::spec_wf(a0) && <Vec<Expr> as Encode>::spec_wf(a1),
            SpecElem::E5(a0, a1) => <RefType as Encode>::spec_wf(a0) && <Vec<Expr> as Encode>::spec_wf(a1),
            SpecElem::E6(a0, a1, a2, a3) => <TableIdx as Encode>::spec_wf(a0) && <Expr as Encode>::spec_wf(a1) && <RefType as Encode>::spec_wf(a2) && <Vec<Expr> as Encode>::spec_wf(a3),
            SpecElem::E7(a0, a1) => <RefType as Encode>::spec_wf(a0) && <Vec<Expr> as Encode>::spec_wf(a1),
        }
    }

    #[verifier::rlimit(100)]
    fn encode(&self, buffer: &mut Vec<u8>) {
        match self {
            Elem::E0(a0, a1) => {
                buffer.push(0u8);
                assert(buffer@ =~= old(buffer)@ + seq![0u8]);
                a0.encode(buffer);
                assert(buffer@ =~= old(buffer)@ + seq![0u8] + <Expr as Encode>::spec_enc(a0.deep_view()));
                a1.encode(buffer);
                assert(buffer@ =~= old(buffer)@ + seq![0u8] + <Expr as Encode>::spec_enc(a0.deep_view()) + <Vec<FuncIdx> as Encode>::spec_enc(a1.deep_view()));
            }
            Elem::E1(a0, a1) => {
                buffer.push(1u8);
                assert(buffer@ =~= old(buffer)@ + seq![1u8]);
                a0.encode(buffer);
                assert(buffer@ =~= old(buffer)@ + seq![1u8] + <ElemKind as Encode>::spec_enc(a0.deep_view()));
                a1.encode(buffer);
                assert(buffer@ =~= old(buffer)@ + seq![1u8] + <ElemKind as Encode>::spec_enc(a0.deep_view()) + <Vec<FuncIdx> as Encode>::spec_enc(a1.deep_view()));
            }
            Elem::E2(a0, a1, a2, a3) => {
                buffer.push(2u8);
                assert(buffer@ =~= old(buffer)@ + seq![2u8]);
                a0.encode(buffer);
                assert(buffer@ =~= old(buffer)@ + seq![2u8] + <TableIdx as Encode>::spec_enc(a0.deep_view()));
                a1.encode(buffer);
                assert(buffer@ =~= old(buffer)@ + seq![2u8] + <TableIdx as Encode>::spec_enc(a0.deep_view()) + <Expr as Encode>::spec_enc(a1.deep_view()));
                a2.encode(buffer);
                assert(buffer@ =~= old(buffer)@ + seq![2u8] + <TableIdx as Encode>::spec_enc(a0.deep_view()) + <Expr as Encode>::spec_enc(a1.deep_view()) + <ElemKind as Encode>::spec_enc(a2.deep_view()));
                a3.encode(buffer);
                assert(buffer@ =~= old(buffer)@ + seq![2u8] + <TableIdx as Encode>::spec_enc(a0.deep_view()) + <Expr as Encode>::spec_enc(a1.deep_view()) + <ElemKind as Encode>::spec_enc(a2.deep_view()) + <Vec<FuncIdx> as Encode>::spec_enc(a3.deep_view()));
            }
            Elem::E3(a0, a1) => {
                buffer.push(3u8);
                assert(buffer@ =~= old(buffer)@ + seq![3u8]);
                a0.encode(buffer);
                assert(buffer@ =~= old(buffer)@ + seq![3u8] + <ElemKind as Encode>::spec_enc(a0.deep_view()));
                a1.encode(buffer);
                assert(buffer@ =~= old(buffer)@ + seq![3u8] + <ElemKind as Encode>::spec_enc(a0.deep_view()) + <Vec<FuncIdx> as Encode>::spec_enc(a1.deep_view()));
            }
            Elem::E4(a0, a1) => {
                buffer.push(4u8);
                assert(buffer@ =~= old(buffer)@ + seq![4u8]);
                a0.encode(buffer);
                assert(buffer@ =~= old(buffer)@ + seq![4u8] + <Expr as Encode>::spec_enc(a0.deep_view()));
                a1.encode(buffer);
                assert(buffer@ =~= old(buffer)@ + seq![4u8] + <Expr as Encode>::spec_enc(a0.deep_view()) + <Vec<Expr> as Encode>::spec_enc(a1.deep_view()));
            }
            Elem::E5(a0, a1) => {
                buffer.push(5u8);
                assert(buffer@ =~= old(buffer)@ + seq![5u8]);
                a0.encode(buffer);
                assert(buffer@ =~= old(buffer)@ + seq![5u8] + <RefType as Encode>::spec_enc(a0.deep_view()));
                a1.encode(buffer);
                assert(buffer@ =~= old(buffer)@ + seq![5u8] + <RefType as Encode>::spec_enc(a0.deep_view()) + <Vec<Expr> as Encode>::spec_enc(a1.deep_view()));
            }
            Elem::E6(a0, a1, a2, a3) => {
                buffer.push(6u8);
                assert(buffer@ =~= old(buffer)@ + seq![6u8]);
                a0.encode(buffer);
                assert(buffer@ =~= old(buffer)@ + seq![6u8] + <TableIdx as Encode>::spec_enc(a0.deep_view()));
                a1.encode(buffer);
                assert(buffer@ =~= old(buffer)@ + seq![6u8] + <TableIdx as Encode>::spec_enc(a0.deep_view()) + <Expr as Encode>::spec_enc(a1.deep_view()));
                a2.encode(buffer);
                assert(buffer@ =~= old(buffer)@ + seq![6u8] + <TableIdx as Encode>::spec_enc(a0.deep_view()) + <Expr as Encode>::spec_enc(a1.deep_view()) + <RefType as Encode>::spec_enc(a2.deep_view()));
                a3.encode(buffer);
                assert(buffer@ =~= old(buffer)@ + seq![6u8] + <TableIdx as Encode>::spec_enc(a0.deep_view()) + <Expr as Encode>::spec_enc(a1.deep_view()) + <RefType as Encode>::spec_enc(a2.deep_view()) + <Vec<Expr> as Encode>::spec_enc(a3.deep_view()));
            }
            Elem::E7(a0, a1) => {
                buffer.push(7u8);
                assert(buffer@ =~= old(buffer)@ + seq![7u8]);
                a0.encode(buffer);
                assert(buffer@ =~= old(buffer)@ + seq![7u8] + <RefType as Encode>::spec_enc(a0.deep_view()));
                a1.encode(buffer);
                assert(buffer@ =~= old(buffer)@ + seq![7u8] + <RefType as Encode>::spec_enc(a0.deep_view()) + <Vec<Expr> as Encode>::spec_enc(a1.deep_view()));
            }
        }
        assert(buffer@ =~= old(buffer)@ + Self::spec_enc(self.deep_view()));
    }
}

/// First wire byte of each `Elem` alternative: the discriminator.
pub open spec fn elem_op(v: SpecElem) -> u8 {
    match v {
        SpecElem::E0(_, _) => 0u8,
        SpecElem::E1(_, _) => 1u8,
        SpecElem::E2(_, _, _, _) => 2u8,
        SpecElem::E3(_, _) => 3u8,
        SpecElem::E4(_, _) => 4u8,
        SpecElem::E5(_, _) => 5u8,
        SpecElem::E6(_, _, _, _) => 6u8,
        SpecElem::E7(_, _) => 7u8,
    }
}

/// Every `Elem` encoding starts with its discriminator byte.
pub proof fn lemma_elem_head(v: SpecElem)
    ensures
        <Elem as Encode>::spec_enc(v).len() >= 1,
        <Elem as Encode>::spec_enc(v)[0] == elem_op(v),
{
    match v {
        SpecElem::E0(a0, a1) => {
            assert(<Elem as Encode>::spec_enc(v) =~= seq![0u8] + (<Expr as Encode>::spec_enc(a0) + <Vec<FuncIdx> as Encode>::spec_enc(a1)));
            assert((seq![0u8] + (<Expr as Encode>::spec_enc(a0) + <Vec<FuncIdx> as Encode>::spec_enc(a1)))[0] == 0u8);
        },
        SpecElem::E1(a0, a1) => {
            assert(<Elem as Encode>::spec_enc(v) =~= seq![1u8] + (<ElemKind as Encode>::spec_enc(a0) + <Vec<FuncIdx> as Encode>::spec_enc(a1)));
            assert((seq![1u8] + (<ElemKind as Encode>::spec_enc(a0) + <Vec<FuncIdx> as Encode>::spec_enc(a1)))[0] == 1u8);
        },
        SpecElem::E2(a0, a1, a2, a3) => {
            assert(<Elem as Encode>::spec_enc(v) =~= seq![2u8] + (<TableIdx as Encode>::spec_enc(a0) + <Expr as Encode>::spec_enc(a1) + <ElemKind as Encode>::spec_enc(a2) + <Vec<FuncIdx> as Encode>::spec_enc(a3)));
            assert((seq![2u8] + (<TableIdx as Encode>::spec_enc(a0) + <Expr as Encode>::spec_enc(a1) + <ElemKind as Encode>::spec_enc(a2) + <Vec<FuncIdx> as Encode>::spec_enc(a3)))[0] == 2u8);
        },
        SpecElem::E3(a0, a1) => {
            assert(<Elem as Encode>::spec_enc(v) =~= seq![3u8] + (<ElemKind as Encode>::spec_enc(a0) + <Vec<FuncIdx> as Encode>::spec_enc(a1)));
            assert((seq![3u8] + (<ElemKind as Encode>::spec_enc(a0) + <Vec<FuncIdx> as Encode>::spec_enc(a1)))[0] == 3u8);
        },
        SpecElem::E4(a0, a1) => {
            assert(<Elem as Encode>::spec_enc(v) =~= seq![4u8] + (<Expr as Encode>::spec_enc(a0) + <Vec<Expr> as Encode>::spec_enc(a1)));
            assert((seq![4u8] + (<Expr as Encode>::spec_enc(a0) + <Vec<Expr> as Encode>::spec_enc(a1)))[0] == 4u8);
        },
        SpecElem::E5(a0, a1) => {
            assert(<Elem as Encode>::spec_enc(v) =~= seq![5u8] + (<RefType as Encode>::spec_enc(a0) + <Vec<Expr> as Encode>::spec_enc(a1)));
            assert((seq![5u8] + (<RefType as Encode>::spec_enc(a0) + <Vec<Expr> as Encode>::spec_enc(a1)))[0] == 5u8);
        },
        SpecElem::E6(a0, a1, a2, a3) => {
            assert(<Elem as Encode>::spec_enc(v) =~= seq![6u8] + (<TableIdx as Encode>::spec_enc(a0) + <Expr as Encode>::spec_enc(a1) + <RefType as Encode>::spec_enc(a2) + <Vec<Expr> as Encode>::spec_enc(a3)));
            assert((seq![6u8] + (<TableIdx as Encode>::spec_enc(a0) + <Expr as Encode>::spec_enc(a1) + <RefType as Encode>::spec_enc(a2) + <Vec<Expr> as Encode>::spec_enc(a3)))[0] == 6u8);
        },
        SpecElem::E7(a0, a1) => {
            assert(<Elem as Encode>::spec_enc(v) =~= seq![7u8] + (<RefType as Encode>::spec_enc(a0) + <Vec<Expr> as Encode>::spec_enc(a1)));
            assert((seq![7u8] + (<RefType as Encode>::spec_enc(a0) + <Vec<Expr> as Encode>::spec_enc(a1)))[0] == 7u8);
        },
    }
}

impl Decode for Elem {
    open spec fn complete() -> bool {
        <Expr as Decode>::complete() && <Vec<FuncIdx> as Decode>::complete() && <ElemKind as Decode>::complete() && <TableIdx as Decode>::complete() && <Vec<Expr> as Decode>::complete() && <RefType as Decode>::complete()
    }

    #[verifier::rlimit(100)]
    proof fn lemma_plain(s: Seq<u8>) {
        assert forall|v: SpecElem| Self::spec_enc(v).len() >= 1 by {
            lemma_elem_head(v);
        }
        if Self::dec_ok(Seq::<u8>::empty()) {
            let (v, e) = choose|v: SpecElem, e: Seq<u8>|
                Self::spec_wf(v) && Seq::<u8>::empty() == Self::spec_enc(v) + e
                    && Self::tail_stop(e);
            assert(Self::spec_enc(v).len() >= 1);
            assert(false);
        }
    }

    #[verifier::rlimit(100)]
    proof fn lemma_unamb(v1: SpecElem, v2: SpecElem, e1: Seq<u8>, e2: Seq<u8>) {
        lemma_elem_head(v1);
        lemma_elem_head(v2);
        assert((Self::spec_enc(v1) + e1)[0] == Self::spec_enc(v1)[0]);
        assert((Self::spec_enc(v2) + e2)[0] == Self::spec_enc(v2)[0]);
        assert(elem_op(v1) == elem_op(v2));
        match v1 {
            SpecElem::E0(_, _) => {
                lemma_elem_unamb_e0(v1, v2, e1, e2);
            },
            SpecElem::E1(_, _) => {
                lemma_elem_unamb_e1(v1, v2, e1, e2);
            },
            SpecElem::E2(_, _, _, _) => {
                lemma_elem_unamb_e2(v1, v2, e1, e2);
            },
            SpecElem::E3(_, _) => {
                lemma_elem_unamb_e3(v1, v2, e1, e2);
            },
            SpecElem::E4(_, _) => {
                lemma_elem_unamb_e4(v1, v2, e1, e2);
            },
            SpecElem::E5(_, _) => {
                lemma_elem_unamb_e5(v1, v2, e1, e2);
            },
            SpecElem::E6(_, _, _, _) => {
                lemma_elem_unamb_e6(v1, v2, e1, e2);
            },
            SpecElem::E7(_, _) => {
                lemma_elem_unamb_e7(v1, v2, e1, e2);
            },
        }
    }

    proof fn lemma_covers(v: Self::V, e: Seq<u8>) {
        assert(Self::spec_wf(v) && Self::spec_enc(v) + e == Self::spec_enc(v) + e
            && Self::tail_stop(e));
    }

    #[verifier::rlimit(100)]
    fn decode(buffer: &[u8]) -> (r: DecodeResult<Self>) {
        if buffer.len() == 0 {
            proof {
                if Self::complete() && Self::dec_ok(buffer@) {
                    let (w, e) = choose|w: SpecElem, e: Seq<u8>|
                        Self::spec_wf(w) && buffer@ == Self::spec_enc(w) + e
                            && Self::tail_stop(e);
                    lemma_elem_head(w);
                    assert(false);
                }
            }
            return Err(DecodeError::Error);
        }
        let b0 = buffer[0];
        match b0 {
            0u8 => decode_elem_e0(buffer),
            1u8 => decode_elem_e1(buffer),
            2u8 => decode_elem_e2(buffer),
            3u8 => decode_elem_e3(buffer),
            4u8 => decode_elem_e4(buffer),
            5u8 => decode_elem_e5(buffer),
            6u8 => decode_elem_e6(buffer),
            7u8 => decode_elem_e7(buffer),
            _ => {
                proof {
                    if Self::complete() && Self::dec_ok(buffer@) {
                        let (w, e) = choose|w: SpecElem, e: Seq<u8>|
                            Self::spec_wf(w) && buffer@ == Self::spec_enc(w) + e
                                && Self::tail_stop(e);
                        lemma_elem_head(w);
                        assert((Self::spec_enc(w) + e)[0] == Self::spec_enc(w)[0]);
                        assert(buffer@[0] == elem_op(w));
                        assert(false);
                    }
                }
                Err(DecodeError::Error)
            },
        }
    }
}

/// Decodes the `E0` alternative of `Elem`.
#[verifier::rlimit(100)]
fn decode_elem_e0(buffer: &[u8]) -> (r: DecodeResult<Elem>)
    requires
        buffer@.len() >= 1,
        buffer@[0] == 0u8,
    ensures
        r matches Ok((v, rest)) ==> <Elem as Encode>::spec_wf(v.deep_view())
            && buffer@ == <Elem as Encode>::spec_enc(v.deep_view()) + rest@
            && (<Elem as Decode>::complete() ==> <Elem as Decode>::tail_stop(
            rest@,
        )),
        <Elem as Decode>::complete() ==> (r is Ok <==> <Elem as Decode>::dec_ok(
            buffer@,
        )),
{
    let cur0 = buffer;
    let (lit0, cur1) = match <u8 as Decode>::decode(cur0) {
        Ok(p) => p,
        Err(_) => {
            proof {
                assert(cur0@.len() >= 1);
                assert(false);
            }
            return Err(DecodeError::Error);
        },
    };
    if lit0 != 0u8 {
        proof {
            assert(cur0@[0] == lit0);
            assert(false);
        }
        return Err(DecodeError::Error);
    }
    assert(buffer@ =~= seq![0u8] + cur1@);
    let (f1, cur2) = match <Expr as Decode>::decode(cur1) {
        Ok(p) => p,
        Err(_) => {
            proof {
                if <Elem as Decode>::complete() && <Elem as Decode>::dec_ok(buffer@) {
                    lemma_err_elem_e0_1_fail(buffer@, cur0@, cur1@);
                }
            }
            return Err(DecodeError::Error);
        },
    };
    assert(buffer@ =~= seq![0u8] + <Expr as Encode>::spec_enc(f1.deep_view()) + cur2@);
    let (f2, cur3) = match <Vec<FuncIdx> as Decode>::decode(cur2) {
        Ok(p) => p,
        Err(_) => {
            proof {
                if <Elem as Decode>::complete() && <Elem as Decode>::dec_ok(buffer@) {
                    lemma_err_elem_e0_2_fail(buffer@, cur0@, cur1@, cur2@, f1.deep_view());
                }
            }
            return Err(DecodeError::Error);
        },
    };
    assert(buffer@ =~= seq![0u8] + <Expr as Encode>::spec_enc(f1.deep_view()) + <Vec<FuncIdx> as Encode>::spec_enc(f2.deep_view()) + cur3@);
    let result = Elem::E0(f1, f2);
    proof {
        assert(<Elem as Encode>::spec_enc(result.deep_view()) =~= seq![0u8] + <Expr as Encode>::spec_enc(f1.deep_view()) + <Vec<FuncIdx> as Encode>::spec_enc(f2.deep_view()));
        assert(buffer@ =~= <Elem as Encode>::spec_enc(result.deep_view()) + cur3@);
        if <Elem as Decode>::complete() {
            assert(<Elem as Decode>::dec_ok(buffer@)) by {
                assert(<Elem as Encode>::spec_wf(result.deep_view()) && buffer@
                    == <Elem as Encode>::spec_enc(result.deep_view()) + cur3@
                    && <Elem as Decode>::tail_stop(cur3@));
            }
        }
    }
    Ok((result, cur3))
}

/// Unambiguity of the `E0` alternative of `Elem`.
#[verifier::rlimit(100)]
proof fn lemma_elem_unamb_e0(v1: SpecElem, v2: SpecElem, e1: Seq<u8>, e2: Seq<u8>)
    requires
        <Elem as Decode>::complete(),
        <Elem as Encode>::spec_wf(v1),
        <Elem as Encode>::spec_wf(v2),
        <Elem as Encode>::spec_enc(v1) + e1 == <Elem as Encode>::spec_enc(v2) + e2,
        <Elem as Decode>::tail_stop(e1),
        <Elem as Decode>::tail_stop(e2),
        elem_op(v1) == 0u8,
        elem_op(v2) == 0u8,
    ensures
        v1 == v2,
        e1 == e2,
{
    match v1 {
        SpecElem::E0(a0, a1) => {
            match v2 {
                SpecElem::E0(b0, b1) => {
                    assert(<Elem as Encode>::spec_enc(v1) + e1 =~= seq![0u8] + (<Expr as Encode>::spec_enc(a0) + (<Vec<FuncIdx> as Encode>::spec_enc(a1) + (e1))));
                    assert(<Elem as Encode>::spec_enc(v2) + e2 =~= seq![0u8] + (<Expr as Encode>::spec_enc(b0) + (<Vec<FuncIdx> as Encode>::spec_enc(b1) + (e2))));
                    lemma_concat_cancel(seq![0u8], <Expr as Encode>::spec_enc(a0) + (<Vec<FuncIdx> as Encode>::spec_enc(a1) + (e1)), seq![0u8], <Expr as Encode>::spec_enc(b0) + (<Vec<FuncIdx> as Encode>::spec_enc(b1) + (e2)));
                    <Expr as Decode>::lemma_plain(<Vec<FuncIdx> as Encode>::spec_enc(a1) + (e1));
                    <Expr as Decode>::lemma_plain(<Vec<FuncIdx> as Encode>::spec_enc(b1) + (e2));
                    <Expr as Decode>::lemma_unamb(a0, b0, <Vec<FuncIdx> as Encode>::spec_enc(a1) + (e1), <Vec<FuncIdx> as Encode>::spec_enc(b1) + (e2));
                    <Vec<FuncIdx> as Decode>::lemma_plain(e1);
                    <Vec<FuncIdx> as Decode>::lemma_plain(e2);
                    <Vec<FuncIdx> as Decode>::lemma_unamb(a1, b1, e1, e2);
                    assert(e1 == e2);
                    assert(a0 == b0 && a1 == b1);
                    assert(v1 == v2);
                },
                _ => {
                    assert(false);
                },
            }
        },
        _ => {
            assert(false);
        },
    }
}

/// Decodes the `E1` alternative of `Elem`.
#[verifier::rlimit(100)]
fn decode_elem_e1(buffer: &[u8]) -> (r: DecodeResult<Elem>)
    requires
        buffer@.len() >= 1,
        buffer@[0] == 1u8,
    ensures
        r matches Ok((v, rest)) ==> <Elem as Encode>::spec_wf(v.deep_view())
            && buffer@ == <Elem as Encode>::spec_enc(v.deep_view()) + rest@
            && (<Elem as Decode>::complete() ==> <Elem as Decode>::tail_stop(
            rest@,
        )),
        <Elem as Decode>::complete() ==> (r is Ok <==> <Elem as Decode>::dec_ok(
            buffer@,
        )),
{
    let cur0 = buffer;
    let (lit0, cur1) = match <u8 as Decode>::decode(cur0) {
        Ok(p) => p,
        Err(_) => {
            proof {
                assert(cur0@.len() >= 1);
                assert(false);
            }
            return Err(DecodeError::Error);
        },
    };
    if lit0 != 1u8 {
        proof {
            assert(cur0@[0] == lit0);
            assert(false);
        }
        return Err(DecodeError::Error);
    }
    assert(buffer@ =~= seq![1u8] + cur1@);
    let (f1, cur2) = match <ElemKind as Decode>::decode(cur1) {
        Ok(p) => p,
        Err(_) => {
            proof {
                if <Elem as Decode>::complete() && <Elem as Decode>::dec_ok(buffer@) {
                    lemma_err_elem_e1_1_fail(buffer@, cur0@, cur1@);
                }
            }
            return Err(DecodeError::Error);
        },
    };
    assert(buffer@ =~= seq![1u8] + <ElemKind as Encode>::spec_enc(f1.deep_view()) + cur2@);
    let (f2, cur3) = match <Vec<FuncIdx> as Decode>::decode(cur2) {
        Ok(p) => p,
        Err(_) => {
            proof {
                if <Elem as Decode>::complete() && <Elem as Decode>::dec_ok(buffer@) {
                    lemma_err_elem_e1_2_fail(buffer@, cur0@, cur1@, cur2@, f1.deep_view());
                }
            }
            return Err(DecodeError::Error);
        },
    };
    assert(buffer@ =~= seq![1u8] + <ElemKind as Encode>::spec_enc(f1.deep_view()) + <Vec<FuncIdx> as Encode>::spec_enc(f2.deep_view()) + cur3@);
    let result = Elem::E1(f1, f2);
    proof {
        assert(<Elem as Encode>::spec_enc(result.deep_view()) =~= seq![1u8] + <ElemKind as Encode>::spec_enc(f1.deep_view()) + <Vec<FuncIdx> as Encode>::spec_enc(f2.deep_view()));
        assert(buffer@ =~= <Elem as Encode>::spec_enc(result.deep_view()) + cur3@);
        if <Elem as Decode>::complete() {
            assert(<Elem as Decode>::dec_ok(buffer@)) by {
                assert(<Elem as Encode>::spec_wf(result.deep_view()) && buffer@
                    == <Elem as Encode>::spec_enc(result.deep_view()) + cur3@
                    && <Elem as Decode>::tail_stop(cur3@));
            }
        }
    }
    Ok((result, cur3))
}

/// Unambiguity of the `E1` alternative of `Elem`.
#[verifier::rlimit(100)]
proof fn lemma_elem_unamb_e1(v1: SpecElem, v2: SpecElem, e1: Seq<u8>, e2: Seq<u8>)
    requires
        <Elem as Decode>::complete(),
        <Elem as Encode>::spec_wf(v1),
        <Elem as Encode>::spec_wf(v2),
        <Elem as Encode>::spec_enc(v1) + e1 == <Elem as Encode>::spec_enc(v2) + e2,
        <Elem as Decode>::tail_stop(e1),
        <Elem as Decode>::tail_stop(e2),
        elem_op(v1) == 1u8,
        elem_op(v2) == 1u8,
    ensures
        v1 == v2,
        e1 == e2,
{
    match v1 {
        SpecElem::E1(a0, a1) => {
            match v2 {
                SpecElem::E1(b0, b1) => {
                    assert(<Elem as Encode>::spec_enc(v1) + e1 =~= seq![1u8] + (<ElemKind as Encode>::spec_enc(a0) + (<Vec<FuncIdx> as Encode>::spec_enc(a1) + (e1))));
                    assert(<Elem as Encode>::spec_enc(v2) + e2 =~= seq![1u8] + (<ElemKind as Encode>::spec_enc(b0) + (<Vec<FuncIdx> as Encode>::spec_enc(b1) + (e2))));
                    lemma_concat_cancel(seq![1u8], <ElemKind as Encode>::spec_enc(a0) + (<Vec<FuncIdx> as Encode>::spec_enc(a1) + (e1)), seq![1u8], <ElemKind as Encode>::spec_enc(b0) + (<Vec<FuncIdx> as Encode>::spec_enc(b1) + (e2)));
                    <ElemKind as Decode>::lemma_plain(<Vec<FuncIdx> as Encode>::spec_enc(a1) + (e1));
                    <ElemKind as Decode>::lemma_plain(<Vec<FuncIdx> as Encode>::spec_enc(b1) + (e2));
                    <ElemKind as Decode>::lemma_unamb(a0, b0, <Vec<FuncIdx> as Encode>::spec_enc(a1) + (e1), <Vec<FuncIdx> as Encode>::spec_enc(b1) + (e2));
                    <Vec<FuncIdx> as Decode>::lemma_plain(e1);
                    <Vec<FuncIdx> as Decode>::lemma_plain(e2);
                    <Vec<FuncIdx> as Decode>::lemma_unamb(a1, b1, e1, e2);
                    assert(e1 == e2);
                    assert(a0 == b0 && a1 == b1);
                    assert(v1 == v2);
                },
                _ => {
                    assert(false);
                },
            }
        },
        _ => {
            assert(false);
        },
    }
}

/// Decodes the `E2` alternative of `Elem`.
#[verifier::rlimit(100)]
fn decode_elem_e2(buffer: &[u8]) -> (r: DecodeResult<Elem>)
    requires
        buffer@.len() >= 1,
        buffer@[0] == 2u8,
    ensures
        r matches Ok((v, rest)) ==> <Elem as Encode>::spec_wf(v.deep_view())
            && buffer@ == <Elem as Encode>::spec_enc(v.deep_view()) + rest@
            && (<Elem as Decode>::complete() ==> <Elem as Decode>::tail_stop(
            rest@,
        )),
        <Elem as Decode>::complete() ==> (r is Ok <==> <Elem as Decode>::dec_ok(
            buffer@,
        )),
{
    let cur0 = buffer;
    let (lit0, cur1) = match <u8 as Decode>::decode(cur0) {
        Ok(p) => p,
        Err(_) => {
            proof {
                assert(cur0@.len() >= 1);
                assert(false);
            }
            return Err(DecodeError::Error);
        },
    };
    if lit0 != 2u8 {
        proof {
            assert(cur0@[0] == lit0);
            assert(false);
        }
        return Err(DecodeError::Error);
    }
    assert(buffer@ =~= seq![2u8] + cur1@);
    let (f1, cur2) = match <TableIdx as Decode>::decode(cur1) {
        Ok(p) => p,
        Err(_) => {
            proof {
                if <Elem as Decode>::complete() && <Elem as Decode>::dec_ok(buffer@) {
                    lemma_err_elem_e2_1_fail(buffer@, cur0@, cur1@);
                }
            }
            return Err(DecodeError::Error);
        },
    };
    assert(buffer@ =~= seq![2u8] + <TableIdx as Encode>::spec_enc(f1.deep_view()) + cur2@);
    let (f2, cur3) = match <Expr as Decode>::decode(cur2) {
        Ok(p) => p,
        Err(_) => {
            proof {
                if <Elem as Decode>::complete() && <Elem as Decode>::dec_ok(buffer@) {
                    lemma_err_elem_e2_2_fail(buffer@, cur0@, cur1@, cur2@, f1.deep_view());
                }
            }
            return Err(DecodeError::Error);
        },
    };
    assert(buffer@ =~= seq![2u8] + <TableIdx as Encode>::spec_enc(f1.deep_view()) + <Expr as Encode>::spec_enc(f2.deep_view()) + cur3@);
    let (f3, cur4) = match <ElemKind as Decode>::decode(cur3) {
        Ok(p) => p,
        Err(_) => {
            proof {
                if <Elem as Decode>::complete() && <Elem as Decode>::dec_ok(buffer@) {
                    lemma_err_elem_e2_3_fail(buffer@, cur0@, cur1@, cur2@, f1.deep_view(), cur3@, f2.deep_view());
                }
            }
            return Err(DecodeError::Error);
        },
    };
    assert(buffer@ =~= seq![2u8] + <TableIdx as Encode>::spec_enc(f1.deep_view()) + <Expr as Encode>::spec_enc(f2.deep_view()) + <ElemKind as Encode>::spec_enc(f3.deep_view()) + cur4@);
    let (f4, cur5) = match <Vec<FuncIdx> as Decode>::decode(cur4) {
        Ok(p) => p,
        Err(_) => {
            proof {
                if <Elem as Decode>::complete() && <Elem as Decode>::dec_ok(buffer@) {
                    lemma_err_elem_e2_4_fail(buffer@, cur0@, cur1@, cur2@, f1.deep_view(), cur3@, f2.deep_view(), cur4@, f3.deep_view());
                }
            }
            return Err(DecodeError::Error);
        },
    };
    assert(buffer@ =~= seq![2u8] + <TableIdx as Encode>::spec_enc(f1.deep_view()) + <Expr as Encode>::spec_enc(f2.deep_view()) + <ElemKind as Encode>::spec_enc(f3.deep_view()) + <Vec<FuncIdx> as Encode>::spec_enc(f4.deep_view()) + cur5@);
    let result = Elem::E2(f1, f2, f3, f4);
    proof {
        assert(<Elem as Encode>::spec_enc(result.deep_view()) =~= seq![2u8] + <TableIdx as Encode>::spec_enc(f1.deep_view()) + <Expr as Encode>::spec_enc(f2.deep_view()) + <ElemKind as Encode>::spec_enc(f3.deep_view()) + <Vec<FuncIdx> as Encode>::spec_enc(f4.deep_view()));
        assert(buffer@ =~= <Elem as Encode>::spec_enc(result.deep_view()) + cur5@);
        if <Elem as Decode>::complete() {
            assert(<Elem as Decode>::dec_ok(buffer@)) by {
                assert(<Elem as Encode>::spec_wf(result.deep_view()) && buffer@
                    == <Elem as Encode>::spec_enc(result.deep_view()) + cur5@
                    && <Elem as Decode>::tail_stop(cur5@));
            }
        }
    }
    Ok((result, cur5))
}

/// Unambiguity of the `E2` alternative of `Elem`.
#[verifier::rlimit(100)]
proof fn lemma_elem_unamb_e2(v1: SpecElem, v2: SpecElem, e1: Seq<u8>, e2: Seq<u8>)
    requires
        <Elem as Decode>::complete(),
        <Elem as Encode>::spec_wf(v1),
        <Elem as Encode>::spec_wf(v2),
        <Elem as Encode>::spec_enc(v1) + e1 == <Elem as Encode>::spec_enc(v2) + e2,
        <Elem as Decode>::tail_stop(e1),
        <Elem as Decode>::tail_stop(e2),
        elem_op(v1) == 2u8,
        elem_op(v2) == 2u8,
    ensures
        v1 == v2,
        e1 == e2,
{
    match v1 {
        SpecElem::E2(a0, a1, a2, a3) => {
            match v2 {
                SpecElem::E2(b0, b1, b2, b3) => {
                    assert(<Elem as Encode>::spec_enc(v1) + e1 =~= seq![2u8] + (<TableIdx as Encode>::spec_enc(a0) + (<Expr as Encode>::spec_enc(a1) + (<ElemKind as Encode>::spec_enc(a2) + (<Vec<FuncIdx> as Encode>::spec_enc(a3) + (e1))))));
                    assert(<Elem as Encode>::spec_enc(v2) + e2 =~= seq![2u8] + (<TableIdx as Encode>::spec_enc(b0) + (<Expr as Encode>::spec_enc(b1) + (<ElemKind as Encode>::spec_enc(b2) + (<Vec<FuncIdx> as Encode>::spec_enc(b3) + (e2))))));
                    lemma_concat_cancel(seq![2u8], <TableIdx as Encode>::spec_enc(a0) + (<Expr as Encode>::spec_enc(a1) + (<ElemKind as Encode>::spec_enc(a2) + (<Vec<FuncIdx> as Encode>::spec_enc(a3) + (e1)))), seq![2u8], <TableIdx as Encode>::spec_enc(b0) + (<Expr as Encode>::spec_enc(b1) + (<ElemKind as Encode>::spec_enc(b2) + (<Vec<FuncIdx> as Encode>::spec_enc(b3) + (e2)))));
                    <TableIdx as Decode>::lemma_plain(<Expr as Encode>::spec_enc(a1) + (<ElemKind as Encode>::spec_enc(a2) + (<Vec<FuncIdx> as Encode>::spec_enc(a3) + (e1))));
                    <TableIdx as Decode>::lemma_plain(<Expr as Encode>::spec_enc(b1) + (<ElemKind as Encode>::spec_enc(b2) + (<Vec<FuncIdx> as Encode>::spec_enc(b3) + (e2))));
                    <TableIdx as Decode>::lemma_unamb(a0, b0, <Expr as Encode>::spec_enc(a1) + (<ElemKind as Encode>::spec_enc(a2) + (<Vec<FuncIdx> as Encode>::spec_enc(a3) + (e1))), <Expr as Encode>::spec_enc(b1) + (<ElemKind as Encode>::spec_enc(b2) + (<Vec<FuncIdx> as Encode>::spec_enc(b3) + (e2))));
                    <Expr as Decode>::lemma_plain(<ElemKind as Encode>::spec_enc(a2) + (<Vec<FuncIdx> as Encode>::spec_enc(a3) + (e1)));
                    <Expr as Decode>::lemma_plain(<ElemKind as Encode>::spec_enc(b2) + (<Vec<FuncIdx> as Encode>::spec_enc(b3) + (e2)));
                    <Expr as Decode>::lemma_unamb(a1, b1, <ElemKind as Encode>::spec_enc(a2) + (<Vec<FuncIdx> as Encode>::spec_enc(a3) + (e1)), <ElemKind as Encode>::spec_enc(b2) + (<Vec<FuncIdx> as Encode>::spec_enc(b3) + (e2)));
                    <ElemKind as Decode>::lemma_plain(<Vec<FuncIdx> as Encode>::spec_enc(a3) + (e1));
                    <ElemKind as Decode>::lemma_plain(<Vec<FuncIdx> as Encode>::spec_enc(b3) + (e2));
                    <ElemKind as Decode>::lemma_unamb(a2, b2, <Vec<FuncIdx> as Encode>::spec_enc(a3) + (e1), <Vec<FuncIdx> as Encode>::spec_enc(b3) + (e2));
                    <Vec<FuncIdx> as Decode>::lemma_plain(e1);
                    <Vec<FuncIdx> as Decode>::lemma_plain(e2);
                    <Vec<FuncIdx> as Decode>::lemma_unamb(a3, b3, e1, e2);
                    assert(e1 == e2);
                    assert(a0 == b0 && a1 == b1 && a2 == b2 && a3 == b3);
                    assert(v1 == v2);
                },
                _ => {
                    assert(false);
                },
            }
        },
        _ => {
            assert(false);
        },
    }
}

/// Decodes the `E3` alternative of `Elem`.
#[verifier::rlimit(100)]
fn decode_elem_e3(buffer: &[u8]) -> (r: DecodeResult<Elem>)
    requires
        buffer@.len() >= 1,
        buffer@[0] == 3u8,
    ensures
        r matches Ok((v, rest)) ==> <Elem as Encode>::spec_wf(v.deep_view())
            && buffer@ == <Elem as Encode>::spec_enc(v.deep_view()) + rest@
            && (<Elem as Decode>::complete() ==> <Elem as Decode>::tail_stop(
            rest@,
        )),
        <Elem as Decode>::complete() ==> (r is Ok <==> <Elem as Decode>::dec_ok(
            buffer@,
        )),
{
    let cur0 = buffer;
    let (lit0, cur1) = match <u8 as Decode>::decode(cur0) {
        Ok(p) => p,
        Err(_) => {
            proof {
                assert(cur0@.len() >= 1);
                assert(false);
            }
            return Err(DecodeError::Error);
        },
    };
    if lit0 != 3u8 {
        proof {
            assert(cur0@[0] == lit0);
            assert(false);
        }
        return Err(DecodeError::Error);
    }
    assert(buffer@ =~= seq![3u8] + cur1@);
    let (f1, cur2) = match <ElemKind as Decode>::decode(cur1) {
        Ok(p) => p,
        Err(_) => {
            proof {
                if <Elem as Decode>::complete() && <Elem as Decode>::dec_ok(buffer@) {
                    lemma_err_elem_e3_1_fail(buffer@, cur0@, cur1@);
                }
            }
            return Err(DecodeError::Error);
        },
    };
    assert(buffer@ =~= seq![3u8] + <ElemKind as Encode>::spec_enc(f1.deep_view()) + cur2@);
    let (f2, cur3) = match <Vec<FuncIdx> as Decode>::decode(cur2) {
        Ok(p) => p,
        Err(_) => {
            proof {
                if <Elem as Decode>::complete() && <Elem as Decode>::dec_ok(buffer@) {
                    lemma_err_elem_e3_2_fail(buffer@, cur0@, cur1@, cur2@, f1.deep_view());
                }
            }
            return Err(DecodeError::Error);
        },
    };
    assert(buffer@ =~= seq![3u8] + <ElemKind as Encode>::spec_enc(f1.deep_view()) + <Vec<FuncIdx> as Encode>::spec_enc(f2.deep_view()) + cur3@);
    let result = Elem::E3(f1, f2);
    proof {
        assert(<Elem as Encode>::spec_enc(result.deep_view()) =~= seq![3u8] + <ElemKind as Encode>::spec_enc(f1.deep_view()) + <Vec<FuncIdx> as Encode>::spec_enc(f2.deep_view()));
        assert(buffer@ =~= <Elem as Encode>::spec_enc(result.deep_view()) + cur3@);
        if <Elem as Decode>::complete() {
            assert(<Elem as Decode>::dec_ok(buffer@)) by {
                assert(<Elem as Encode>::spec_wf(result.deep_view()) && buffer@
                    == <Elem as Encode>::spec_enc(result.deep_view()) + cur3@
                    && <Elem as Decode>::tail_stop(cur3@));
            }
        }
    }
    Ok((result, cur3))
}

/// Unambiguity of the `E3` alternative of `Elem`.
#[verifier::rlimit(100)]
proof fn lemma_elem_unamb_e3(v1: SpecElem, v2: SpecElem, e1: Seq<u8>, e2: Seq<u8>)
    requires
        <Elem as Decode>::complete(),
        <Elem as Encode>::spec_wf(v1),
        <Elem as Encode>::spec_wf(v2),
        <Elem as Encode>::spec_enc(v1) + e1 == <Elem as Encode>::spec_enc(v2) + e2,
        <Elem as Decode>::tail_stop(e1),
        <Elem as Decode>::tail_stop(e2),
        elem_op(v1) == 3u8,
        elem_op(v2) == 3u8,
    ensures
        v1 == v2,
        e1 == e2,
{
    match v1 {
        SpecElem::E3(a0, a1) => {
            match v2 {
                SpecElem::E3(b0, b1) => {
                    assert(<Elem as Encode>::spec_enc(v1) + e1 =~= seq![3u8] + (<ElemKind as Encode>::spec_enc(a0) + (<Vec<FuncIdx> as Encode>::spec_enc(a1) + (e1))));
                    assert(<Elem as Encode>::spec_enc(v2) + e2 =~= seq![3u8] + (<ElemKind as Encode>::spec_enc(b0) + (<Vec<FuncIdx> as Encode>::spec_enc(b1) + (e2))));
                    lemma_concat_cancel(seq![3u8], <ElemKind as Encode>::spec_enc(a0) + (<Vec<FuncIdx> as Encode>::spec_enc(a1) + (e1)), seq![3u8], <ElemKind as Encode>::spec_enc(b0) + (<Vec<FuncIdx> as Encode>::spec_enc(b1) + (e2)));
                    <ElemKind as Decode>::lemma_plain(<Vec<FuncIdx> as Encode>::spec_enc(a1) + (e1));
                    <ElemKind as Decode>::lemma_plain(<Vec<FuncIdx> as Encode>::spec_enc(b1) + (e2));
                    <ElemKind as Decode>::lemma_unamb(a0, b0, <Vec<FuncIdx> as Encode>::spec_enc(a1) + (e1), <Vec<FuncIdx> as Encode>::spec_enc(b1) + (e2));
                    <Vec<FuncIdx> as Decode>::lemma_plain(e1);
                    <Vec<FuncIdx> as Decode>::lemma_plain(e2);
                    <Vec<FuncIdx> as Decode>::lemma_unamb(a1, b1, e1, e2);
                    assert(e1 == e2);
                    assert(a0 == b0 && a1 == b1);
                    assert(v1 == v2);
                },
                _ => {
                    assert(false);
                },
            }
        },
        _ => {
            assert(false);
        },
    }
}

/// Decodes the `E4` alternative of `Elem`.
#[verifier::rlimit(100)]
fn decode_elem_e4(buffer: &[u8]) -> (r: DecodeResult<Elem>)
    requires
        buffer@.len() >= 1,
        buffer@[0] == 4u8,
    ensures
        r matches Ok((v, rest)) ==> <Elem as Encode>::spec_wf(v.deep_view())
            && buffer@ == <Elem as Encode>::spec_enc(v.deep_view()) + rest@
            && (<Elem as Decode>::complete() ==> <Elem as Decode>::tail_stop(
            rest@,
        )),
        <Elem as Decode>::complete() ==> (r is Ok <==> <Elem as Decode>::dec_ok(
            buffer@,
        )),
{
    let cur0 = buffer;
    let (lit0, cur1) = match <u8 as Decode>::decode(cur0) {
        Ok(p) => p,
        Err(_) => {
            proof {
                assert(cur0@.len() >= 1);
                assert(false);
            }
            return Err(DecodeError::Error);
        },
    };
    if lit0 != 4u8 {
        proof {
            assert(cur0@[0] == lit0);
            assert(false);
        }
        return Err(DecodeError::Error);
    }
    assert(buffer@ =~= seq![4u8] + cur1@);
    let (f1, cur2) = match <Expr as Decode>::decode(cur1) {
        Ok(p) => p,
        Err(_) => {
            proof {
                if <Elem as Decode>::complete() && <Elem as Decode>::dec_ok(buffer@) {
                    lemma_err_elem_e4_1_fail(buffer@, cur0@, cur1@);
                }
            }
            return Err(DecodeError::Error);
        },
    };
    assert(buffer@ =~= seq![4u8] + <Expr as Encode>::spec_enc(f1.deep_view()) + cur2@);
    let (f2, cur3) = match <Vec<Expr> as Decode>::decode(cur2) {
        Ok(p) => p,
        Err(_) => {
            proof {
                if <Elem as Decode>::complete() && <Elem as Decode>::dec_ok(buffer@) {
                    lemma_err_elem_e4_2_fail(buffer@, cur0@, cur1@, cur2@, f1.deep_view());
                }
            }
            return Err(DecodeError::Error);
        },
    };
    assert(buffer@ =~= seq![4u8] + <Expr as Encode>::spec_enc(f1.deep_view()) + <Vec<Expr> as Encode>::spec_enc(f2.deep_view()) + cur3@);
    let result = Elem::E4(f1, f2);
    proof {
        assert(<Elem as Encode>::spec_enc(result.deep_view()) =~= seq![4u8] + <Expr as Encode>::spec_enc(f1.deep_view()) + <Vec<Expr> as Encode>::spec_enc(f2.deep_view()));
        assert(buffer@ =~= <Elem as Encode>::spec_enc(result.deep_view()) + cur3@);
        if <Elem as Decode>::complete() {
            assert(<Elem as Decode>::dec_ok(buffer@)) by {
                assert(<Elem as Encode>::spec_wf(result.deep_view()) && buffer@
                    == <Elem as Encode>::spec_enc(result.deep_view()) + cur3@
                    && <Elem as Decode>::tail_stop(cur3@));
            }
        }
    }
    Ok((result, cur3))
}

/// Unambiguity of the `E4` alternative of `Elem`.
#[verifier::rlimit(100)]
proof fn lemma_elem_unamb_e4(v1: SpecElem, v2: SpecElem, e1: Seq<u8>, e2: Seq<u8>)
    requires
        <Elem as Decode>::complete(),
        <Elem as Encode>::spec_wf(v1),
        <Elem as Encode>::spec_wf(v2),
        <Elem as Encode>::spec_enc(v1) + e1 == <Elem as Encode>::spec_enc(v2) + e2,
        <Elem as Decode>::tail_stop(e1),
        <Elem as Decode>::tail_stop(e2),
        elem_op(v1) == 4u8,
        elem_op(v2) == 4u8,
    ensures
        v1 == v2,
        e1 == e2,
{
    match v1 {
        SpecElem::E4(a0, a1) => {
            match v2 {
                SpecElem::E4(b0, b1) => {
                    assert(<Elem as Encode>::spec_enc(v1) + e1 =~= seq![4u8] + (<Expr as Encode>::spec_enc(a0) + (<Vec<Expr> as Encode>::spec_enc(a1) + (e1))));
                    assert(<Elem as Encode>::spec_enc(v2) + e2 =~= seq![4u8] + (<Expr as Encode>::spec_enc(b0) + (<Vec<Expr> as Encode>::spec_enc(b1) + (e2))));
                    lemma_concat_cancel(seq![4u8], <Expr as Encode>::spec_enc(a0) + (<Vec<Expr> as Encode>::spec_enc(a1) + (e1)), seq![4u8], <Expr as Encode>::spec_enc(b0) + (<Vec<Expr> as Encode>::spec_enc(b1) + (e2)));
                    <Expr as Decode>::lemma_plain(<Vec<Expr> as Encode>::spec_enc(a1) + (e1));
                    <Expr as Decode>::lemma_plain(<Vec<Expr> as Encode>::spec_enc(b1) + (e2));
                    <Expr as Decode>::lemma_unamb(a0, b0, <Vec<Expr> as Encode>::spec_enc(a1) + (e1), <Vec<Expr> as Encode>::spec_enc(b1) + (e2));
                    <Vec<Expr> as Decode>::lemma_plain(e1);
                    <Vec<Expr> as Decode>::lemma_plain(e2);
                    <Vec<Expr> as Decode>::lemma_unamb(a1, b1, e1, e2);
                    assert(e1 == e2);
                    assert(a0 == b0 && a1 == b1);
                    assert(v1 == v2);
                },
                _ => {
                    assert(false);
                },
            }
        },
        _ => {
            assert(false);
        },
    }
}

/// Decodes the `E5` alternative of `Elem`.
#[verifier::rlimit(100)]
fn decode_elem_e5(buffer: &[u8]) -> (r: DecodeResult<Elem>)
    requires
        buffer@.len() >= 1,
        buffer@[0] == 5u8,
    ensures
        r matches Ok((v, rest)) ==> <Elem as Encode>::spec_wf(v.deep_view())
            && buffer@ == <Elem as Encode>::spec_enc(v.deep_view()) + rest@
            && (<Elem as Decode>::complete() ==> <Elem as Decode>::tail_stop(
            rest@,
        )),
        <Elem as Decode>::complete() ==> (r is Ok <==> <Elem as Decode>::dec_ok(
            buffer@,
        )),
{
    let cur0 = buffer;
    let (lit0, cur1) = match <u8 as Decode>::decode(cur0) {
        Ok(p) => p,
        Err(_) => {
            proof {
                assert(cur0@.len() >= 1);
                assert(false);
            }
            return Err(DecodeError::Error);
        },
    };
    if lit0 != 5u8 {
        proof {
            assert(cur0@[0] == lit0);
            assert(false);
        }
        return Err(DecodeError::Error);
    }
    assert(buffer@ =~= seq![5u8] + cur1@);
    let (f1, cur2) = match <RefType as Decode>::decode(cur1) {
        Ok(p) => p,
        Err(_) => {
            proof {
                if <Elem as Decode>::complete() && <Elem as Decode>::dec_ok(buffer@) {
                    lemma_err_elem_e5_1_fail(buffer@, cur0@, cur1@);
                }
            }
            return Err(DecodeError::Error);
        },
    };
    assert(buffer@ =~= seq![5u8] + <RefType as Encode>::spec_enc(f1.deep_view()) + cur2@);
    let (f2, cur3) = match <Vec<Expr> as Decode>::decode(cur2) {
        Ok(p) => p,
        Err(_) => {
            proof {
                if <Elem as Decode>::complete() && <Elem as Decode>::dec_ok(buffer@) {
                    lemma_err_elem_e5_2_fail(buffer@, cur0@, cur1@, cur2@, f1.deep_view());
                }
            }
            return Err(DecodeError::Error);
        },
    };
    assert(buffer@ =~= seq![5u8] + <RefType as Encode>::spec_enc(f1.deep_view()) + <Vec<Expr> as Encode>::spec_enc(f2.deep_view()) + cur3@);
    let result = Elem::E5(f1, f2);
    proof {
        assert(<Elem as Encode>::spec_enc(result.deep_view()) =~= seq![5u8] + <RefType as Encode>::spec_enc(f1.deep_view()) + <Vec<Expr> as Encode>::spec_enc(f2.deep_view()));
        assert(buffer@ =~= <Elem as Encode>::spec_enc(result.deep_view()) + cur3@);
        if <Elem as Decode>::complete() {
            assert(<Elem as Decode>::dec_ok(buffer@)) by {
                assert(<Elem as Encode>::spec_wf(result.deep_view()) && buffer@
                    == <Elem as Encode>::spec_enc(result.deep_view()) + cur3@
                    && <Elem as Decode>::tail_stop(cur3@));
            }
        }
    }
    Ok((result, cur3))
}

/// Unambiguity of the `E5` alternative of `Elem`.
#[verifier::rlimit(100)]
proof fn lemma_elem_unamb_e5(v1: SpecElem, v2: SpecElem, e1: Seq<u8>, e2: Seq<u8>)
    requires
        <Elem as Decode>::complete(),
        <Elem as Encode>::spec_wf(v1),
        <Elem as Encode>::spec_wf(v2),
        <Elem as Encode>::spec_enc(v1) + e1 == <Elem as Encode>::spec_enc(v2) + e2,
        <Elem as Decode>::tail_stop(e1),
        <Elem as Decode>::tail_stop(e2),
        elem_op(v1) == 5u8,
        elem_op(v2) == 5u8,
    ensures
        v1 == v2,
        e1 == e2,
{
    match v1 {
        SpecElem::E5(a0, a1) => {
            match v2 {
                SpecElem::E5(b0, b1) => {
                    assert(<Elem as Encode>::spec_enc(v1) + e1 =~= seq![5u8] + (<RefType as Encode>::spec_enc(a0) + (<Vec<Expr> as Encode>::spec_enc(a1) + (e1))));
                    assert(<Elem as Encode>::spec_enc(v2) + e2 =~= seq![5u8] + (<RefType as Encode>::spec_enc(b0) + (<Vec<Expr> as Encode>::spec_enc(b1) + (e2))));
                    lemma_concat_cancel(seq![5u8], <RefType as Encode>::spec_enc(a0) + (<Vec<Expr> as Encode>::spec_enc(a1) + (e1)), seq![5u8], <RefType as Encode>::spec_enc(b0) + (<Vec<Expr> as Encode>::spec_enc(b1) + (e2)));
                    <RefType as Decode>::lemma_plain(<Vec<Expr> as Encode>::spec_enc(a1) + (e1));
                    <RefType as Decode>::lemma_plain(<Vec<Expr> as Encode>::spec_enc(b1) + (e2));
                    <RefType as Decode>::lemma_unamb(a0, b0, <Vec<Expr> as Encode>::spec_enc(a1) + (e1), <Vec<Expr> as Encode>::spec_enc(b1) + (e2));
                    <Vec<Expr> as Decode>::lemma_plain(e1);
                    <Vec<Expr> as Decode>::lemma_plain(e2);
                    <Vec<Expr> as Decode>::lemma_unamb(a1, b1, e1, e2);
                    assert(e1 == e2);
                    assert(a0 == b0 && a1 == b1);
                    assert(v1 == v2);
                },
                _ => {
                    assert(false);
                },
            }
        },
        _ => {
            assert(false);
        },
    }
}

/// Decodes the `E6` alternative of `Elem`.
#[verifier::rlimit(100)]
fn decode_elem_e6(buffer: &[u8]) -> (r: DecodeResult<Elem>)
    requires
        buffer@.len() >= 1,
        buffer@[0] == 6u8,
    ensures
        r matches Ok((v, rest)) ==> <Elem as Encode>::spec_wf(v.deep_view())
            && buffer@ == <Elem as Encode>::spec_enc(v.deep_view()) + rest@
            && (<Elem as Decode>::complete() ==> <Elem as Decode>::tail_stop(
            rest@,
        )),
        <Elem as Decode>::complete() ==> (r is Ok <==> <Elem as Decode>::dec_ok(
            buffer@,
        )),
{
    let cur0 = buffer;
    let (lit0, cur1) = match <u8 as Decode>::decode(cur0) {
        Ok(p) => p,
        Err(_) => {
            proof {
                assert(cur0@.len() >= 1);
                assert(false);
            }
            return Err(DecodeError::Error);
        },
    };
    if lit0 != 6u8 {
        proof {
            assert(cur0@[0] == lit0);
            assert(false);
        }
        return Err(DecodeError::Error);
    }
    assert(buffer@ =~= seq![6u8] + cur1@);
    let (f1, cur2) = match <TableIdx as Decode>::decode(cur1) {
        Ok(p) => p,
        Err(_) => {
            proof {
                if <Elem as Decode>::complete() && <Elem as Decode>::dec_ok(buffer@) {
                    lemma_err_elem_e6_1_fail(buffer@, cur0@, cur1@);
                }
            }
            return Err(DecodeError::Error);
        },
    };
    assert(buffer@ =~= seq![6u8] + <TableIdx as Encode>::spec_enc(f1.deep_view()) + cur2@);
    let (f2, cur3) = match <Expr as Decode>::decode(cur2) {
        Ok(p) => p,
        Err(_) => {
            proof {
                if <Elem as Decode>::complete() && <Elem as Decode>::dec_ok(buffer@) {
                    lemma_err_elem_e6_2_fail(buffer@, cur0@, cur1@, cur2@, f1.deep_view());
                }
            }
            return Err(DecodeError::Error);
        },
    };
    assert(buffer@ =~= seq![6u8] + <TableIdx as Encode>::spec_enc(f1.deep_view()) + <Expr as Encode>::spec_enc(f2.deep_view()) + cur3@);
    let (f3, cur4) = match <RefType as Decode>::decode(cur3) {
        Ok(p) => p,
        Err(_) => {
            proof {
                if <Elem as Decode>::complete() && <Elem as Decode>::dec_ok(buffer@) {
                    lemma_err_elem_e6_3_fail(buffer@, cur0@, cur1@, cur2@, f1.deep_view(), cur3@, f2.deep_view());
                }
            }
            return Err(DecodeError::Error);
        },
    };
    assert(buffer@ =~= seq![6u8] + <TableIdx as Encode>::spec_enc(f1.deep_view()) + <Expr as Encode>::spec_enc(f2.deep_view()) + <RefType as Encode>::spec_enc(f3.deep_view()) + cur4@);
    let (f4, cur5) = match <Vec<Expr> as Decode>::decode(cur4) {
        Ok(p) => p,
        Err(_) => {
            proof {
                if <Elem as Decode>::complete() && <Elem as Decode>::dec_ok(buffer@) {
                    lemma_err_elem_e6_4_fail(buffer@, cur0@, cur1@, cur2@, f1.deep_view(), cur3@, f2.deep_view(), cur4@, f3.deep_view());
                }
            }
            return Err(DecodeError::Error);
        },
    };
    assert(buffer@ =~= seq![6u8] + <TableIdx as Encode>::spec_enc(f1.deep_view()) + <Expr as Encode>::spec_enc(f2.deep_view()) + <RefType as Encode>::spec_enc(f3.deep_view()) + <Vec<Expr> as Encode>::spec_enc(f4.deep_view()) + cur5@);
    let result = Elem::E6(f1, f2, f3, f4);
    proof {
        assert(<Elem as Encode>::spec_enc(result.deep_view()) =~= seq![6u8] + <TableIdx as Encode>::spec_enc(f1.deep_view()) + <Expr as Encode>::spec_enc(f2.deep_view()) + <RefType as Encode>::spec_enc(f3.deep_view()) + <Vec<Expr> as Encode>::spec_enc(f4.deep_view()));
        assert(buffer@ =~= <Elem as Encode>::spec_enc(result.deep_view()) + cur5@);
        if <Elem as Decode>::complete() {
            assert(<Elem as Decode>::dec_ok(buffer@)) by {
                assert(<Elem as Encode>::spec_wf(result.deep_view()) && buffer@
                    == <Elem as Encode>::spec_enc(result.deep_view()) + cur5@
                    && <Elem as Decode>::tail_stop(cur5@));
            }
        }
    }
    Ok((result, cur5))
}

/// Unambiguity of the `E6` alternative of `Elem`.
#[verifier::rlimit(100)]
proof fn lemma_elem_unamb_e6(v1: SpecElem, v2: SpecElem, e1: Seq<u8>, e2: Seq<u8>)
    requires
        <Elem as Decode>::complete(),
        <Elem as Encode>::spec_wf(v1),
        <Elem as Encode>::spec_wf(v2),
        <Elem as Encode>::spec_enc(v1) + e1 == <Elem as Encode>::spec_enc(v2) + e2,
        <Elem as Decode>::tail_stop(e1),
        <Elem as Decode>::tail_stop(e2),
        elem_op(v1) == 6u8,
        elem_op(v2) == 6u8,
    ensures
        v1 == v2,
        e1 == e2,
{
    match v1 {
        SpecElem::E6(a0, a1, a2, a3) => {
            match v2 {
                SpecElem::E6(b0, b1, b2, b3) => {
                    assert(<Elem as Encode>::spec_enc(v1) + e1 =~= seq![6u8] + (<TableIdx as Encode>::spec_enc(a0) + (<Expr as Encode>::spec_enc(a1) + (<RefType as Encode>::spec_enc(a2) + (<Vec<Expr> as Encode>::spec_enc(a3) + (e1))))));
                    assert(<Elem as Encode>::spec_enc(v2) + e2 =~= seq![6u8] + (<TableIdx as Encode>::spec_enc(b0) + (<Expr as Encode>::spec_enc(b1) + (<RefType as Encode>::spec_enc(b2) + (<Vec<Expr> as Encode>::spec_enc(b3) + (e2))))));
                    lemma_concat_cancel(seq![6u8], <TableIdx as Encode>::spec_enc(a0) + (<Expr as Encode>::spec_enc(a1) + (<RefType as Encode>::spec_enc(a2) + (<Vec<Expr> as Encode>::spec_enc(a3) + (e1)))), seq![6u8], <TableIdx as Encode>::spec_enc(b0) + (<Expr as Encode>::spec_enc(b1) + (<RefType as Encode>::spec_enc(b2) + (<Vec<Expr> as Encode>::spec_enc(b3) + (e2)))));
                    <TableIdx as Decode>::lemma_plain(<Expr as Encode>::spec_enc(a1) + (<RefType as Encode>::spec_enc(a2) + (<Vec<Expr> as Encode>::spec_enc(a3) + (e1))));
                    <TableIdx as Decode>::lemma_plain(<Expr as Encode>::spec_enc(b1) + (<RefType as Encode>::spec_enc(b2) + (<Vec<Expr> as Encode>::spec_enc(b3) + (e2))));
                    <TableIdx as Decode>::lemma_unamb(a0, b0, <Expr as Encode>::spec_enc(a1) + (<RefType as Encode>::spec_enc(a2) + (<Vec<Expr> as Encode>::spec_enc(a3) + (e1))), <Expr as Encode>::spec_enc(b1) + (<RefType as Encode>::spec_enc(b2) + (<Vec<Expr> as Encode>::spec_enc(b3) + (e2))));
                    <Expr as Decode>::lemma_plain(<RefType as Encode>::spec_enc(a2) + (<Vec<Expr> as Encode>::spec_enc(a3) + (e1)));
                    <Expr as Decode>::lemma_plain(<RefType as Encode>::spec_enc(b2) + (<Vec<Expr> as Encode>::spec_enc(b3) + (e2)));
                    <Expr as Decode>::lemma_unamb(a1, b1, <RefType as Encode>::spec_enc(a2) + (<Vec<Expr> as Encode>::spec_enc(a3) + (e1)), <RefType as Encode>::spec_enc(b2) + (<Vec<Expr> as Encode>::spec_enc(b3) + (e2)));
                    <RefType as Decode>::lemma_plain(<Vec<Expr> as Encode>::spec_enc(a3) + (e1));
                    <RefType as Decode>::lemma_plain(<Vec<Expr> as Encode>::spec_enc(b3) + (e2));
                    <RefType as Decode>::lemma_unamb(a2, b2, <Vec<Expr> as Encode>::spec_enc(a3) + (e1), <Vec<Expr> as Encode>::spec_enc(b3) + (e2));
                    <Vec<Expr> as Decode>::lemma_plain(e1);
                    <Vec<Expr> as Decode>::lemma_plain(e2);
                    <Vec<Expr> as Decode>::lemma_unamb(a3, b3, e1, e2);
                    assert(e1 == e2);
                    assert(a0 == b0 && a1 == b1 && a2 == b2 && a3 == b3);
                    assert(v1 == v2);
                },
                _ => {
                    assert(false);
                },
            }
        },
        _ => {
            assert(false);
        },
    }
}

/// Decodes the `E7` alternative of `Elem`.
#[verifier::rlimit(100)]
fn decode_elem_e7(buffer: &[u8]) -> (r: DecodeResult<Elem>)
    requires
        buffer@.len() >= 1,
        buffer@[0] == 7u8,
    ensures
        r matches Ok((v, rest)) ==> <Elem as Encode>::spec_wf(v.deep_view())
            && buffer@ == <Elem as Encode>::spec_enc(v.deep_view()) + rest@
            && (<Elem as Decode>::complete() ==> <Elem as Decode>::tail_stop(
            rest@,
        )),
        <Elem as Decode>::complete() ==> (r is Ok <==> <Elem as Decode>::dec_ok(
            buffer@,
        )),
{
    let cur0 = buffer;
    let (lit0, cur1) = match <u8 as Decode>::decode(cur0) {
        Ok(p) => p,
        Err(_) => {
            proof {
                assert(cur0@.len() >= 1);
                assert(false);
            }
            return Err(DecodeError::Error);
        },
    };
    if lit0 != 7u8 {
        proof {
            assert(cur0@[0] == lit0);
            assert(false);
        }
        return Err(DecodeError::Error);
    }
    assert(buffer@ =~= seq![7u8] + cur1@);
    let (f1, cur2) = match <RefType as Decode>::decode(cur1) {
        Ok(p) => p,
        Err(_) => {
            proof {
                if <Elem as Decode>::complete() && <Elem as Decode>::dec_ok(buffer@) {
                    lemma_err_elem_e7_1_fail(buffer@, cur0@, cur1@);
                }
            }
            return Err(DecodeError::Error);
        },
    };
    assert(buffer@ =~= seq![7u8] + <RefType as Encode>::spec_enc(f1.deep_view()) + cur2@);
    let (f2, cur3) = match <Vec<Expr> as Decode>::decode(cur2) {
        Ok(p) => p,
        Err(_) => {
            proof {
                if <Elem as Decode>::complete() && <Elem as Decode>::dec_ok(buffer@) {
                    lemma_err_elem_e7_2_fail(buffer@, cur0@, cur1@, cur2@, f1.deep_view());
                }
            }
            return Err(DecodeError::Error);
        },
    };
    assert(buffer@ =~= seq![7u8] + <RefType as Encode>::spec_enc(f1.deep_view()) + <Vec<Expr> as Encode>::spec_enc(f2.deep_view()) + cur3@);
    let result = Elem::E7(f1, f2);
    proof {
        assert(<Elem as Encode>::spec_enc(result.deep_view()) =~= seq![7u8] + <RefType as Encode>::spec_enc(f1.deep_view()) + <Vec<Expr> as Encode>::spec_enc(f2.deep_view()));
        assert(buffer@ =~= <Elem as Encode>::spec_enc(result.deep_view()) + cur3@);
        if <Elem as Decode>::complete() {
            assert(<Elem as Decode>::dec_ok(buffer@)) by {
                assert(<Elem as Encode>::spec_wf(result.deep_view()) && buffer@
                    == <Elem as Encode>::spec_enc(result.deep_view()) + cur3@
                    && <Elem as Decode>::tail_stop(cur3@));
            }
        }
    }
    Ok((result, cur3))
}

/// Unambiguity of the `E7` alternative of `Elem`.
#[verifier::rlimit(100)]
proof fn lemma_elem_unamb_e7(v1: SpecElem, v2: SpecElem, e1: Seq<u8>, e2: Seq<u8>)
    requires
        <Elem as Decode>::complete(),
        <Elem as Encode>::spec_wf(v1),
        <Elem as Encode>::spec_wf(v2),
        <Elem as Encode>::spec_enc(v1) + e1 == <Elem as Encode>::spec_enc(v2) + e2,
        <Elem as Decode>::tail_stop(e1),
        <Elem as Decode>::tail_stop(e2),
        elem_op(v1) == 7u8,
        elem_op(v2) == 7u8,
    ensures
        v1 == v2,
        e1 == e2,
{
    match v1 {
        SpecElem::E7(a0, a1) => {
            match v2 {
                SpecElem::E7(b0, b1) => {
                    assert(<Elem as Encode>::spec_enc(v1) + e1 =~= seq![7u8] + (<RefType as Encode>::spec_enc(a0) + (<Vec<Expr> as Encode>::spec_enc(a1) + (e1))));
                    assert(<Elem as Encode>::spec_enc(v2) + e2 =~= seq![7u8] + (<RefType as Encode>::spec_enc(b0) + (<Vec<Expr> as Encode>::spec_enc(b1) + (e2))));
                    lemma_concat_cancel(seq![7u8], <RefType as Encode>::spec_enc(a0) + (<Vec<Expr> as Encode>::spec_enc(a1) + (e1)), seq![7u8], <RefType as Encode>::spec_enc(b0) + (<Vec<Expr> as Encode>::spec_enc(b1) + (e2)));
                    <RefType as Decode>::lemma_plain(<Vec<Expr> as Encode>::spec_enc(a1) + (e1));
                    <RefType as Decode>::lemma_plain(<Vec<Expr> as Encode>::spec_enc(b1) + (e2));
                    <RefType as Decode>::lemma_unamb(a0, b0, <Vec<Expr> as Encode>::spec_enc(a1) + (e1), <Vec<Expr> as Encode>::spec_enc(b1) + (e2));
                    <Vec<Expr> as Decode>::lemma_plain(e1);
                    <Vec<Expr> as Decode>::lemma_plain(e2);
                    <Vec<Expr> as Decode>::lemma_unamb(a1, b1, e1, e2);
                    assert(e1 == e2);
                    assert(a0 == b0 && a1 == b1);
                    assert(v1 == v2);
                },
                _ => {
                    assert(false);
                },
            }
        },
        _ => {
            assert(false);
        },
    }
}

/// What a claimed parse of `Elem` says about the bytes at this point.
#[verifier::rlimit(100)]
proof fn lemma_err_elem_e0_1_fail(buffer: Seq<u8>, c0: Seq<u8>, c1: Seq<u8>)
    requires
        <Elem as Decode>::complete(),
        <Elem as Decode>::dec_ok(buffer),
        c0 == buffer,
        c0 == seq![0u8] + c1,
    ensures
        <Expr as Decode>::dec_ok(c1),
{
    let (w, e) = choose|w: SpecElem, e: Seq<u8>|
        <Elem as Encode>::spec_wf(w) && buffer == <Elem as Encode>::spec_enc(w)
            + e && <Elem as Decode>::tail_stop(e);
    lemma_elem_head(w);
    assert((<Elem as Encode>::spec_enc(w) + e)[0]
        == <Elem as Encode>::spec_enc(w)[0]);
    assert(buffer[0] == elem_op(w));
    assert(elem_op(w) == 0u8);
    match w {
        SpecElem::E0(wv0, wv1) => {
            assert(buffer =~= seq![0u8] + (<Expr as Encode>::spec_enc(wv0) + (<Vec<FuncIdx> as Encode>::spec_enc(wv1) + (e))));
            lemma_concat_cancel(seq![0u8], c1, seq![0u8], <Expr as Encode>::spec_enc(wv0) + (<Vec<FuncIdx> as Encode>::spec_enc(wv1) + (e)));
            assert(c1 == <Expr as Encode>::spec_enc(wv0) + (<Vec<FuncIdx> as Encode>::spec_enc(wv1) + (e)));
            assert(c1 == <Expr as Encode>::spec_enc(wv0) + (<Vec<FuncIdx> as Encode>::spec_enc(wv1) + (e)));
            <Expr as Decode>::lemma_plain(<Vec<FuncIdx> as Encode>::spec_enc(wv1) + (e));
            <Expr as Decode>::lemma_covers(wv0, <Vec<FuncIdx> as Encode>::spec_enc(wv1) + (e));
            assert(<Expr as Decode>::dec_ok(c1));
        },
        _ => {
            assert(false);
        },
    }
}

/// What a claimed parse of `Elem` says about the bytes at this point.
#[verifier::rlimit(100)]
proof fn lemma_err_elem_e0_2_fail(buffer: Seq<u8>, c0: Seq<u8>, c1: Seq<u8>, c2: Seq<u8>, w1: Seq<SpecInstr>)
    requires
        <Elem as Decode>::complete(),
        <Elem as Decode>::dec_ok(buffer),
        c0 == buffer,
        c0 == seq![0u8] + c1,
        c1 == <Expr as Encode>::spec_enc(w1) + c2,
        <Expr as Encode>::spec_wf(w1),
        <Expr as Decode>::tail_stop(c2),
    ensures
        <Vec<FuncIdx> as Decode>::dec_ok(c2),
{
    let (w, e) = choose|w: SpecElem, e: Seq<u8>|
        <Elem as Encode>::spec_wf(w) && buffer == <Elem as Encode>::spec_enc(w)
            + e && <Elem as Decode>::tail_stop(e);
    lemma_elem_head(w);
    assert((<Elem as Encode>::spec_enc(w) + e)[0]
        == <Elem as Encode>::spec_enc(w)[0]);
    assert(buffer[0] == elem_op(w));
    assert(elem_op(w) == 0u8);
    match w {
        SpecElem::E0(wv0, wv1) => {
            assert(buffer =~= seq![0u8] + (<Expr as Encode>::spec_enc(wv0) + (<Vec<FuncIdx> as Encode>::spec_enc(wv1) + (e))));
            lemma_concat_cancel(seq![0u8], c1, seq![0u8], <Expr as Encode>::spec_enc(wv0) + (<Vec<FuncIdx> as Encode>::spec_enc(wv1) + (e)));
            assert(c1 == <Expr as Encode>::spec_enc(wv0) + (<Vec<FuncIdx> as Encode>::spec_enc(wv1) + (e)));
            <Expr as Decode>::lemma_plain(c2);
            <Expr as Decode>::lemma_plain(<Vec<FuncIdx> as Encode>::spec_enc(wv1) + (e));
            <Expr as Decode>::lemma_unamb(w1, wv0, c2, <Vec<FuncIdx> as Encode>::spec_enc(wv1) + (e));
            assert(c2 == <Vec<FuncIdx> as Encode>::spec_enc(wv1) + (e));
            assert(c2 == <Vec<FuncIdx> as Encode>::spec_enc(wv1) + (e));
            <Vec<FuncIdx> as Decode>::lemma_plain(e);
            <Vec<FuncIdx> as Decode>::lemma_covers(wv1, e);
            assert(<Vec<FuncIdx> as Decode>::dec_ok(c2));
        },
        _ => {
            assert(false);
        },
    }
}

/// What a claimed parse of `Elem` says about the bytes at this point.
#[verifier::rlimit(100)]
proof fn lemma_err_elem_e1_1_fail(buffer: Seq<u8>, c0: Seq<u8>, c1: Seq<u8>)
    requires
        <Elem as Decode>::complete(),
        <Elem as Decode>::dec_ok(buffer),
        c0 == buffer,
        c0 == seq![1u8] + c1,
    ensures
        <ElemKind as Decode>::dec_ok(c1),
{
    let (w, e) = choose|w: SpecElem, e: Seq<u8>|
        <Elem as Encode>::spec_wf(w) && buffer == <Elem as Encode>::spec_enc(w)
            + e && <Elem as Decode>::tail_stop(e);
    lemma_elem_head(w);
    assert((<Elem as Encode>::spec_enc(w) + e)[0]
        == <Elem as Encode>::spec_enc(w)[0]);
    assert(buffer[0] == elem_op(w));
    assert(elem_op(w) == 1u8);
    match w {
        SpecElem::E1(wv0, wv1) => {
            assert(buffer =~= seq![1u8] + (<ElemKind as Encode>::spec_enc(wv0) + (<Vec<FuncIdx> as Encode>::spec_enc(wv1) + (e))));
            lemma_concat_cancel(seq![1u8], c1, seq![1u8], <ElemKind as Encode>::spec_enc(wv0) + (<Vec<FuncIdx> as Encode>::spec_enc(wv1) + (e)));
            assert(c1 == <ElemKind as Encode>::spec_enc(wv0) + (<Vec<FuncIdx> as Encode>::spec_enc(wv1) + (e)));
            assert(c1 == <ElemKind as Encode>::spec_enc(wv0) + (<Vec<FuncIdx> as Encode>::spec_enc(wv1) + (e)));
            <ElemKind as Decode>::lemma_plain(<Vec<FuncIdx> as Encode>::spec_enc(wv1) + (e));
            <ElemKind as Decode>::lemma_covers(wv0, <Vec<FuncIdx> as Encode>::spec_enc(wv1) + (e));
            assert(<ElemKind as Decode>::dec_ok(c1));
        },
        _ => {
            assert(false);
        },
    }
}

/// What a claimed parse of `Elem` says about the bytes at this point.
#[verifier::rlimit(100)]
proof fn lemma_err_elem_e1_2_fail(buffer: Seq<u8>, c0: Seq<u8>, c1: Seq<u8>, c2: Seq<u8>, w1: ElemKind)
    requires
        <Elem as Decode>::complete(),
        <Elem as Decode>::dec_ok(buffer),
        c0 == buffer,
        c0 == seq![1u8] + c1,
        c1 == <ElemKind as Encode>::spec_enc(w1) + c2,
        <ElemKind as Encode>::spec_wf(w1),
        <ElemKind as Decode>::tail_stop(c2),
    ensures
        <Vec<FuncIdx> as Decode>::dec_ok(c2),
{
    let (w, e) = choose|w: SpecElem, e: Seq<u8>|
        <Elem as Encode>::spec_wf(w) && buffer == <Elem as Encode>::spec_enc(w)
            + e && <Elem as Decode>::tail_stop(e);
    lemma_elem_head(w);
    assert((<Elem as Encode>::spec_enc(w) + e)[0]
        == <Elem as Encode>::spec_enc(w)[0]);
    assert(buffer[0] == elem_op(w));
    assert(elem_op(w) == 1u8);
    match w {
        SpecElem::E1(wv0, wv1) => {
            assert(buffer =~= seq![1u8] + (<ElemKind as Encode>::spec_enc(wv0) + (<Vec<FuncIdx> as Encode>::spec_enc(wv1) + (e))));
            lemma_concat_cancel(seq![1u8], c1, seq![1u8], <ElemKind as Encode>::spec_enc(wv0) + (<Vec<FuncIdx> as Encode>::spec_enc(wv1) + (e)));
            assert(c1 == <ElemKind as Encode>::spec_enc(wv0) + (<Vec<FuncIdx> as Encode>::spec_enc(wv1) + (e)));
            <ElemKind as Decode>::lemma_plain(c2);
            <ElemKind as Decode>::lemma_plain(<Vec<FuncIdx> as Encode>::spec_enc(wv1) + (e));
            <ElemKind as Decode>::lemma_unamb(w1, wv0, c2, <Vec<FuncIdx> as Encode>::spec_enc(wv1) + (e));
            assert(c2 == <Vec<FuncIdx> as Encode>::spec_enc(wv1) + (e));
            assert(c2 == <Vec<FuncIdx> as Encode>::spec_enc(wv1) + (e));
            <Vec<FuncIdx> as Decode>::lemma_plain(e);
            <Vec<FuncIdx> as Decode>::lemma_covers(wv1, e);
            assert(<Vec<FuncIdx> as Decode>::dec_ok(c2));
        },
        _ => {
            assert(false);
        },
    }
}

/// What a claimed parse of `Elem` says about the bytes at this point.
#[verifier::rlimit(100)]
proof fn lemma_err_elem_e2_1_fail(buffer: Seq<u8>, c0: Seq<u8>, c1: Seq<u8>)
    requires
        <Elem as Decode>::complete(),
        <Elem as Decode>::dec_ok(buffer),
        c0 == buffer,
        c0 == seq![2u8] + c1,
    ensures
        <TableIdx as Decode>::dec_ok(c1),
{
    let (w, e) = choose|w: SpecElem, e: Seq<u8>|
        <Elem as Encode>::spec_wf(w) && buffer == <Elem as Encode>::spec_enc(w)
            + e && <Elem as Decode>::tail_stop(e);
    lemma_elem_head(w);
    assert((<Elem as Encode>::spec_enc(w) + e)[0]
        == <Elem as Encode>::spec_enc(w)[0]);
    assert(buffer[0] == elem_op(w));
    assert(elem_op(w) == 2u8);
    match w {
        SpecElem::E2(wv0, wv1, wv2, wv3) => {
            assert(buffer =~= seq![2u8] + (<TableIdx as Encode>::spec_enc(wv0) + (<Expr as Encode>::spec_enc(wv1) + (<ElemKind as Encode>::spec_enc(wv2) + (<Vec<FuncIdx> as Encode>::spec_enc(wv3) + (e))))));
            lemma_concat_cancel(seq![2u8], c1, seq![2u8], <TableIdx as Encode>::spec_enc(wv0) + (<Expr as Encode>::spec_enc(wv1) + (<ElemKind as Encode>::spec_enc(wv2) + (<Vec<FuncIdx> as Encode>::spec_enc(wv3) + (e)))));
            assert(c1 == <TableIdx as Encode>::spec_enc(wv0) + (<Expr as Encode>::spec_enc(wv1) + (<ElemKind as Encode>::spec_enc(wv2) + (<Vec<FuncIdx> as Encode>::spec_enc(wv3) + (e)))));
            assert(c1 == <TableIdx as Encode>::spec_enc(wv0) + (<Expr as Encode>::spec_enc(wv1) + (<ElemKind as Encode>::spec_enc(wv2) + (<Vec<FuncIdx> as Encode>::spec_enc(wv3) + (e)))));
            <TableIdx as Decode>::lemma_plain(<Expr as Encode>::spec_enc(wv1) + (<ElemKind as Encode>::spec_enc(wv2) + (<Vec<FuncIdx> as Encode>::spec_enc(wv3) + (e))));
            <TableIdx as Decode>::lemma_covers(wv0, <Expr as Encode>::spec_enc(wv1) + (<ElemKind as Encode>::spec_enc(wv2) + (<Vec<FuncIdx> as Encode>::spec_enc(wv3) + (e))));
            assert(<TableIdx as Decode>::dec_ok(c1));
        },
        _ => {
            assert(false);
        },
    }
}

/// What a claimed parse of `Elem` says about the bytes at this point.
#[verifier::rlimit(100)]
proof fn lemma_err_elem_e2_2_fail(buffer: Seq<u8>, c0: Seq<u8>, c1: Seq<u8>, c2: Seq<u8>, w1: TableIdx)
    requires
        <Elem as Decode>::complete(),
        <Elem as Decode>::dec_ok(buffer),
        c0 == buffer,
        c0 == seq![2u8] + c1,
        c1 == <TableIdx as Encode>::spec_enc(w1) + c2,
        <TableIdx as Encode>::spec_wf(w1),
        <TableIdx as Decode>::tail_stop(c2),
    ensures
        <Expr as Decode>::dec_ok(c2),
{
    let (w, e) = choose|w: SpecElem, e: Seq<u8>|
        <Elem as Encode>::spec_wf(w) && buffer == <Elem as Encode>::spec_enc(w)
            + e && <Elem as Decode>::tail_stop(e);
    lemma_elem_head(w);
    assert((<Elem as Encode>::spec_enc(w) + e)[0]
        == <Elem as Encode>::spec_enc(w)[0]);
    assert(buffer[0] == elem_op(w));
    assert(elem_op(w) == 2u8);
    match w {
        SpecElem::E2(wv0, wv1, wv2, wv3) => {
            assert(buffer =~= seq![2u8] + (<TableIdx as Encode>::spec_enc(wv0) + (<Expr as Encode>::spec_enc(wv1) + (<ElemKind as Encode>::spec_enc(wv2) + (<Vec<FuncIdx> as Encode>::spec_enc(wv3) + (e))))));
            lemma_concat_cancel(seq![2u8], c1, seq![2u8], <TableIdx as Encode>::spec_enc(wv0) + (<Expr as Encode>::spec_enc(wv1) + (<ElemKind as Encode>::spec_enc(wv2) + (<Vec<FuncIdx> as Encode>::spec_enc(wv3) + (e)))));
            assert(c1 == <TableIdx as Encode>::spec_enc(wv0) + (<Expr as Encode>::spec_enc(wv1) + (<ElemKind as Encode>::spec_enc(wv2) + (<Vec<FuncIdx> as Encode>::spec_enc(wv3) + (e)))));
            <TableIdx as Decode>::lemma_plain(c2);
            <TableIdx as Decode>::lemma_plain(<Expr as Encode>::spec_enc(wv1) + (<ElemKind as Encode>::spec_enc(wv2) + (<Vec<FuncIdx> as Encode>::spec_enc(wv3) + (e))));
            <TableIdx as Decode>::lemma_unamb(w1, wv0, c2, <Expr as Encode>::spec_enc(wv1) + (<ElemKind as Encode>::spec_enc(wv2) + (<Vec<FuncIdx> as Encode>::spec_enc(wv3) + (e))));
            assert(c2 == <Expr as Encode>::spec_enc(wv1) + (<ElemKind as Encode>::spec_enc(wv2) + (<Vec<FuncIdx> as Encode>::spec_enc(wv3) + (e))));
            assert(c2 == <Expr as Encode>::spec_enc(wv1) + (<ElemKind as Encode>::spec_enc(wv2) + (<Vec<FuncIdx> as Encode>::spec_enc(wv3) + (e))));
            <Expr as Decode>::lemma_plain(<ElemKind as Encode>::spec_enc(wv2) + (<Vec<FuncIdx> as Encode>::spec_enc(wv3) + (e)));
            <Expr as Decode>::lemma_covers(wv1, <ElemKind as Encode>::spec_enc(wv2) + (<Vec<FuncIdx> as Encode>::spec_enc(wv3) + (e)));
            assert(<Expr as Decode>::dec_ok(c2));
        },
        _ => {
            assert(false);
        },
    }
}

/// What a claimed parse of `Elem` says about the bytes at this point.
#[verifier::rlimit(100)]
proof fn lemma_err_elem_e2_3_fail(buffer: Seq<u8>, c0: Seq<u8>, c1: Seq<u8>, c2: Seq<u8>, w1: TableIdx, c3: Seq<u8>, w2: Seq<SpecInstr>)
    requires
        <Elem as Decode>::complete(),
        <Elem as Decode>::dec_ok(buffer),
        c0 == buffer,
        c0 == seq![2u8] + c1,
        c1 == <TableIdx as Encode>::spec_enc(w1) + c2,
        <TableIdx as Encode>::spec_wf(w1),
        <TableIdx as Decode>::tail_stop(c2),
        c2 == <Expr as Encode>::spec_enc(w2) + c3,
        <Expr as Encode>::spec_wf(w2),
        <Expr as Decode>::tail_stop(c3),
    ensures
        <ElemKind as Decode>::dec_ok(c3),
{
    let (w, e) = choose|w: SpecElem, e: Seq<u8>|
        <Elem as Encode>::spec_wf(w) && buffer == <Elem as Encode>::spec_enc(w)
            + e && <Elem as Decode>::tail_stop(e);
    lemma_elem_head(w);
    assert((<Elem as Encode>::spec_enc(w) + e)[0]
        == <Elem as Encode>::spec_enc(w)[0]);
    assert(buffer[0] == elem_op(w));
    assert(elem_op(w) == 2u8);
    match w {
        SpecElem::E2(wv0, wv1, wv2, wv3) => {
            assert(buffer =~= seq![2u8] + (<TableIdx as Encode>::spec_enc(wv0) + (<Expr as Encode>::spec_enc(wv1) + (<ElemKind as Encode>::spec_enc(wv2) + (<Vec<FuncIdx> as Encode>::spec_enc(wv3) + (e))))));
            lemma_concat_cancel(seq![2u8], c1, seq![2u8], <TableIdx as Encode>::spec_enc(wv0) + (<Expr as Encode>::spec_enc(wv1) + (<ElemKind as Encode>::spec_enc(wv2) + (<Vec<FuncIdx> as Encode>::spec_enc(wv3) + (e)))));
            assert(c1 == <TableIdx as Encode>::spec_enc(wv0) + (<Expr as Encode>::spec_enc(wv1) + (<ElemKind as Encode>::spec_enc(wv2) + (<Vec<FuncIdx> as Encode>::spec_enc(wv3) + (e)))));
            <TableIdx as Decode>::lemma_plain(c2);
            <TableIdx as Decode>::lemma_plain(<Expr as Encode>::spec_enc(wv1) + (<ElemKind as Encode>::spec_enc(wv2) + (<Vec<FuncIdx> as Encode>::spec_enc(wv3) + (e))));
            <TableIdx as Decode>::lemma_unamb(w1, wv0, c2, <Expr as Encode>::spec_enc(wv1) + (<ElemKind as Encode>::spec_enc(wv2) + (<Vec<FuncIdx> as Encode>::spec_enc(wv3) + (e))));
            assert(c2 == <Expr as Encode>::spec_enc(wv1) + (<ElemKind as Encode>::spec_enc(wv2) + (<Vec<FuncIdx> as Encode>::spec_enc(wv3) + (e))));
            <Expr as Decode>::lemma_plain(c3);
            <Expr as Decode>::lemma_plain(<ElemKind as Encode>::spec_enc(wv2) + (<Vec<FuncIdx> as Encode>::spec_enc(wv3) + (e)));
            <Expr as Decode>::lemma_unamb(w2, wv1, c3, <ElemKind as Encode>::spec_enc(wv2) + (<Vec<FuncIdx> as Encode>::spec_enc(wv3) + (e)));
            assert(c3 == <ElemKind as Encode>::spec_enc(wv2) + (<Vec<FuncIdx> as Encode>::spec_enc(wv3) + (e)));
            assert(c3 == <ElemKind as Encode>::spec_enc(wv2) + (<Vec<FuncIdx> as Encode>::spec_enc(wv3) + (e)));
            <ElemKind as Decode>::lemma_plain(<Vec<FuncIdx> as Encode>::spec_enc(wv3) + (e));
            <ElemKind as Decode>::lemma_covers(wv2, <Vec<FuncIdx> as Encode>::spec_enc(wv3) + (e));
            assert(<ElemKind as Decode>::dec_ok(c3));
        },
        _ => {
            assert(false);
        },
    }
}

/// What a claimed parse of `Elem` says about the bytes at this point.
#[verifier::rlimit(100)]
proof fn lemma_err_elem_e2_4_fail(buffer: Seq<u8>, c0: Seq<u8>, c1: Seq<u8>, c2: Seq<u8>, w1: TableIdx, c3: Seq<u8>, w2: Seq<SpecInstr>, c4: Seq<u8>, w3: ElemKind)
    requires
        <Elem as Decode>::complete(),
        <Elem as Decode>::dec_ok(buffer),
        c0 == buffer,
        c0 == seq![2u8] + c1,
        c1 == <TableIdx as Encode>::spec_enc(w1) + c2,
        <TableIdx as Encode>::spec_wf(w1),
        <TableIdx as Decode>::tail_stop(c2),
        c2 == <Expr as Encode>::spec_enc(w2) + c3,
        <Expr as Encode>::spec_wf(w2),
        <Expr as Decode>::tail_stop(c3),
        c3 == <ElemKind as Encode>::spec_enc(w3) + c4,
        <ElemKind as Encode>::spec_wf(w3),
        <ElemKind as Decode>::tail_stop(c4),
    ensures
        <Vec<FuncIdx> as Decode>::dec_ok(c4),
{
    let (w, e) = choose|w: SpecElem, e: Seq<u8>|
        <Elem as Encode>::spec_wf(w) && buffer == <Elem as Encode>::spec_enc(w)
            + e && <Elem as Decode>::tail_stop(e);
    lemma_elem_head(w);
    assert((<Elem as Encode>::spec_enc(w) + e)[0]
        == <Elem as Encode>::spec_enc(w)[0]);
    assert(buffer[0] == elem_op(w));
    assert(elem_op(w) == 2u8);
    match w {
        SpecElem::E2(wv0, wv1, wv2, wv3) => {
            assert(buffer =~= seq![2u8] + (<TableIdx as Encode>::spec_enc(wv0) + (<Expr as Encode>::spec_enc(wv1) + (<ElemKind as Encode>::spec_enc(wv2) + (<Vec<FuncIdx> as Encode>::spec_enc(wv3) + (e))))));
            lemma_concat_cancel(seq![2u8], c1, seq![2u8], <TableIdx as Encode>::spec_enc(wv0) + (<Expr as Encode>::spec_enc(wv1) + (<ElemKind as Encode>::spec_enc(wv2) + (<Vec<FuncIdx> as Encode>::spec_enc(wv3) + (e)))));
            assert(c1 == <TableIdx as Encode>::spec_enc(wv0) + (<Expr as Encode>::spec_enc(wv1) + (<ElemKind as Encode>::spec_enc(wv2) + (<Vec<FuncIdx> as Encode>::spec_enc(wv3) + (e)))));
            <TableIdx as Decode>::lemma_plain(c2);
            <TableIdx as Decode>::lemma_plain(<Expr as Encode>::spec_enc(wv1) + (<ElemKind as Encode>::spec_enc(wv2) + (<Vec<FuncIdx> as Encode>::spec_enc(wv3) + (e))));
            <TableIdx as Decode>::lemma_unamb(w1, wv0, c2, <Expr as Encode>::spec_enc(wv1) + (<ElemKind as Encode>::spec_enc(wv2) + (<Vec<FuncIdx> as Encode>::spec_enc(wv3) + (e))));
            assert(c2 == <Expr as Encode>::spec_enc(wv1) + (<ElemKind as Encode>::spec_enc(wv2) + (<Vec<FuncIdx> as Encode>::spec_enc(wv3) + (e))));
            <Expr as Decode>::lemma_plain(c3);
            <Expr as Decode>::lemma_plain(<ElemKind as Encode>::spec_enc(wv2) + (<Vec<FuncIdx> as Encode>::spec_enc(wv3) + (e)));
            <Expr as Decode>::lemma_unamb(w2, wv1, c3, <ElemKind as Encode>::spec_enc(wv2) + (<Vec<FuncIdx> as Encode>::spec_enc(wv3) + (e)));
            assert(c3 == <ElemKind as Encode>::spec_enc(wv2) + (<Vec<FuncIdx> as Encode>::spec_enc(wv3) + (e)));
            <ElemKind as Decode>::lemma_plain(c4);
            <ElemKind as Decode>::lemma_plain(<Vec<FuncIdx> as Encode>::spec_enc(wv3) + (e));
            <ElemKind as Decode>::lemma_unamb(w3, wv2, c4, <Vec<FuncIdx> as Encode>::spec_enc(wv3) + (e));
            assert(c4 == <Vec<FuncIdx> as Encode>::spec_enc(wv3) + (e));
            assert(c4 == <Vec<FuncIdx> as Encode>::spec_enc(wv3) + (e));
            <Vec<FuncIdx> as Decode>::lemma_plain(e);
            <Vec<FuncIdx> as Decode>::lemma_covers(wv3, e);
            assert(<Vec<FuncIdx> as Decode>::dec_ok(c4));
        },
        _ => {
            assert(false);
        },
    }
}

/// What a claimed parse of `Elem` says about the bytes at this point.
#[verifier::rlimit(100)]
proof fn lemma_err_elem_e3_1_fail(buffer: Seq<u8>, c0: Seq<u8>, c1: Seq<u8>)
    requires
        <Elem as Decode>::complete(),
        <Elem as Decode>::dec_ok(buffer),
        c0 == buffer,
        c0 == seq![3u8] + c1,
    ensures
        <ElemKind as Decode>::dec_ok(c1),
{
    let (w, e) = choose|w: SpecElem, e: Seq<u8>|
        <Elem as Encode>::spec_wf(w) && buffer == <Elem as Encode>::spec_enc(w)
            + e && <Elem as Decode>::tail_stop(e);
    lemma_elem_head(w);
    assert((<Elem as Encode>::spec_enc(w) + e)[0]
        == <Elem as Encode>::spec_enc(w)[0]);
    assert(buffer[0] == elem_op(w));
    assert(elem_op(w) == 3u8);
    match w {
        SpecElem::E3(wv0, wv1) => {
            assert(buffer =~= seq![3u8] + (<ElemKind as Encode>::spec_enc(wv0) + (<Vec<FuncIdx> as Encode>::spec_enc(wv1) + (e))));
            lemma_concat_cancel(seq![3u8], c1, seq![3u8], <ElemKind as Encode>::spec_enc(wv0) + (<Vec<FuncIdx> as Encode>::spec_enc(wv1) + (e)));
            assert(c1 == <ElemKind as Encode>::spec_enc(wv0) + (<Vec<FuncIdx> as Encode>::spec_enc(wv1) + (e)));
            assert(c1 == <ElemKind as Encode>::spec_enc(wv0) + (<Vec<FuncIdx> as Encode>::spec_enc(wv1) + (e)));
            <ElemKind as Decode>::lemma_plain(<Vec<FuncIdx> as Encode>::spec_enc(wv1) + (e));
            <ElemKind as Decode>::lemma_covers(wv0, <Vec<FuncIdx> as Encode>::spec_enc(wv1) + (e));
            assert(<ElemKind as Decode>::dec_ok(c1));
        },
        _ => {
            assert(false);
        },
    }
}

/// What a claimed parse of `Elem` says about the bytes at this point.
#[verifier::rlimit(100)]
proof fn lemma_err_elem_e3_2_fail(buffer: Seq<u8>, c0: Seq<u8>, c1: Seq<u8>, c2: Seq<u8>, w1: ElemKind)
    requires
        <Elem as Decode>::complete(),
        <Elem as Decode>::dec_ok(buffer),
        c0 == buffer,
        c0 == seq![3u8] + c1,
        c1 == <ElemKind as Encode>::spec_enc(w1) + c2,
        <ElemKind as Encode>::spec_wf(w1),
        <ElemKind as Decode>::tail_stop(c2),
    ensures
        <Vec<FuncIdx> as Decode>::dec_ok(c2),
{
    let (w, e) = choose|w: SpecElem, e: Seq<u8>|
        <Elem as Encode>::spec_wf(w) && buffer == <Elem as Encode>::spec_enc(w)
            + e && <Elem as Decode>::tail_stop(e);
    lemma_elem_head(w);
    assert((<Elem as Encode>::spec_enc(w) + e)[0]
        == <Elem as Encode>::spec_enc(w)[0]);
    assert(buffer[0] == elem_op(w));
    assert(elem_op(w) == 3u8);
    match w {
        SpecElem::E3(wv0, wv1) => {
            assert(buffer =~= seq![3u8] + (<ElemKind as Encode>::spec_enc(wv0) + (<Vec<FuncIdx> as Encode>::spec_enc(wv1) + (e))));
            lemma_concat_cancel(seq![3u8], c1, seq![3u8], <ElemKind as Encode>::spec_enc(wv0) + (<Vec<FuncIdx> as Encode>::spec_enc(wv1) + (e)));
            assert(c1 == <ElemKind as Encode>::spec_enc(wv0) + (<Vec<FuncIdx> as Encode>::spec_enc(wv1) + (e)));
            <ElemKind as Decode>::lemma_plain(c2);
            <ElemKind as Decode>::lemma_plain(<Vec<FuncIdx> as Encode>::spec_enc(wv1) + (e));
            <ElemKind as Decode>::lemma_unamb(w1, wv0, c2, <Vec<FuncIdx> as Encode>::spec_enc(wv1) + (e));
            assert(c2 == <Vec<FuncIdx> as Encode>::spec_enc(wv1) + (e));
            assert(c2 == <Vec<FuncIdx> as Encode>::spec_enc(wv1) + (e));
            <Vec<FuncIdx> as Decode>::lemma_plain(e);
            <Vec<FuncIdx> as Decode>::lemma_covers(wv1, e);
            assert(<Vec<FuncIdx> as Decode>::dec_ok(c2));
        },
        _ => {
            assert(false);
        },
    }
}

/// What a claimed parse of `Elem` says about the bytes at this point.
#[verifier::rlimit(100)]
proof fn lemma_err_elem_e4_1_fail(buffer: Seq<u8>, c0: Seq<u8>, c1: Seq<u8>)
    requires
        <Elem as Decode>::complete(),
        <Elem as Decode>::dec_ok(buffer),
        c0 == buffer,
        c0 == seq![4u8] + c1,
    ensures
        <Expr as Decode>::dec_ok(c1),
{
    let (w, e) = choose|w: SpecElem, e: Seq<u8>|
        <Elem as Encode>::spec_wf(w) && buffer == <Elem as Encode>::spec_enc(w)
            + e && <Elem as Decode>::tail_stop(e);
    lemma_elem_head(w);
    assert((<Elem as Encode>::spec_enc(w) + e)[0]
        == <Elem as Encode>::spec_enc(w)[0]);
    assert(buffer[0] == elem_op(w));
    assert(elem_op(w) == 4u8);
    match w {
        SpecElem::E4(wv0, wv1) => {
            assert(buffer =~= seq![4u8] + (<Expr as Encode>::spec_enc(wv0) + (<Vec<Expr> as Encode>::spec_enc(wv1) + (e))));
            lemma_concat_cancel(seq![4u8], c1, seq![4u8], <Expr as Encode>::spec_enc(wv0) + (<Vec<Expr> as Encode>::spec_enc(wv1) + (e)));
            assert(c1 == <Expr as Encode>::spec_enc(wv0) + (<Vec<Expr> as Encode>::spec_enc(wv1) + (e)));
            assert(c1 == <Expr as Encode>::spec_enc(wv0) + (<Vec<Expr> as Encode>::spec_enc(wv1) + (e)));
            <Expr as Decode>::lemma_plain(<Vec<Expr> as Encode>::spec_enc(wv1) + (e));
            <Expr as Decode>::lemma_covers(wv0, <Vec<Expr> as Encode>::spec_enc(wv1) + (e));
            assert(<Expr as Decode>::dec_ok(c1));
        },
        _ => {
            assert(false);
        },
    }
}

/// What a claimed parse of `Elem` says about the bytes at this point.
#[verifier::rlimit(100)]
proof fn lemma_err_elem_e4_2_fail(buffer: Seq<u8>, c0: Seq<u8>, c1: Seq<u8>, c2: Seq<u8>, w1: Seq<SpecInstr>)
    requires
        <Elem as Decode>::complete(),
        <Elem as Decode>::dec_ok(buffer),
        c0 == buffer,
        c0 == seq![4u8] + c1,
        c1 == <Expr as Encode>::spec_enc(w1) + c2,
        <Expr as Encode>::spec_wf(w1),
        <Expr as Decode>::tail_stop(c2),
    ensures
        <Vec<Expr> as Decode>::dec_ok(c2),
{
    let (w, e) = choose|w: SpecElem, e: Seq<u8>|
        <Elem as Encode>::spec_wf(w) && buffer == <Elem as Encode>::spec_enc(w)
            + e && <Elem as Decode>::tail_stop(e);
    lemma_elem_head(w);
    assert((<Elem as Encode>::spec_enc(w) + e)[0]
        == <Elem as Encode>::spec_enc(w)[0]);
    assert(buffer[0] == elem_op(w));
    assert(elem_op(w) == 4u8);
    match w {
        SpecElem::E4(wv0, wv1) => {
            assert(buffer =~= seq![4u8] + (<Expr as Encode>::spec_enc(wv0) + (<Vec<Expr> as Encode>::spec_enc(wv1) + (e))));
            lemma_concat_cancel(seq![4u8], c1, seq![4u8], <Expr as Encode>::spec_enc(wv0) + (<Vec<Expr> as Encode>::spec_enc(wv1) + (e)));
            assert(c1 == <Expr as Encode>::spec_enc(wv0) + (<Vec<Expr> as Encode>::spec_enc(wv1) + (e)));
            <Expr as Decode>::lemma_plain(c2);
            <Expr as Decode>::lemma_plain(<Vec<Expr> as Encode>::spec_enc(wv1) + (e));
            <Expr as Decode>::lemma_unamb(w1, wv0, c2, <Vec<Expr> as Encode>::spec_enc(wv1) + (e));
            assert(c2 == <Vec<Expr> as Encode>::spec_enc(wv1) + (e));
            assert(c2 == <Vec<Expr> as Encode>::spec_enc(wv1) + (e));
            <Vec<Expr> as Decode>::lemma_plain(e);
            <Vec<Expr> as Decode>::lemma_covers(wv1, e);
            assert(<Vec<Expr> as Decode>::dec_ok(c2));
        },
        _ => {
            assert(false);
        },
    }
}

/// What a claimed parse of `Elem` says about the bytes at this point.
#[verifier::rlimit(100)]
proof fn lemma_err_elem_e5_1_fail(buffer: Seq<u8>, c0: Seq<u8>, c1: Seq<u8>)
    requires
        <Elem as Decode>::complete(),
        <Elem as Decode>::dec_ok(buffer),
        c0 == buffer,
        c0 == seq![5u8] + c1,
    ensures
        <RefType as Decode>::dec_ok(c1),
{
    let (w, e) = choose|w: SpecElem, e: Seq<u8>|
        <Elem as Encode>::spec_wf(w) && buffer == <Elem as Encode>::spec_enc(w)
            + e && <Elem as Decode>::tail_stop(e);
    lemma_elem_head(w);
    assert((<Elem as Encode>::spec_enc(w) + e)[0]
        == <Elem as Encode>::spec_enc(w)[0]);
    assert(buffer[0] == elem_op(w));
    assert(elem_op(w) == 5u8);
    match w {
        SpecElem::E5(wv0, wv1) => {
            assert(buffer =~= seq![5u8] + (<RefType as Encode>::spec_enc(wv0) + (<Vec<Expr> as Encode>::spec_enc(wv1) + (e))));
            lemma_concat_cancel(seq![5u8], c1, seq![5u8], <RefType as Encode>::spec_enc(wv0) + (<Vec<Expr> as Encode>::spec_enc(wv1) + (e)));
            assert(c1 == <RefType as Encode>::spec_enc(wv0) + (<Vec<Expr> as Encode>::spec_enc(wv1) + (e)));
            assert(c1 == <RefType as Encode>::spec_enc(wv0) + (<Vec<Expr> as Encode>::spec_enc(wv1) + (e)));
            <RefType as Decode>::lemma_plain(<Vec<Expr> as Encode>::spec_enc(wv1) + (e));
            <RefType as Decode>::lemma_covers(wv0, <Vec<Expr> as Encode>::spec_enc(wv1) + (e));
            assert(<RefType as Decode>::dec_ok(c1));
        },
        _ => {
            assert(false);
        },
    }
}

/// What a claimed parse of `Elem` says about the bytes at this point.
#[verifier::rlimit(100)]
proof fn lemma_err_elem_e5_2_fail(buffer: Seq<u8>, c0: Seq<u8>, c1: Seq<u8>, c2: Seq<u8>, w1: RefType)
    requires
        <Elem as Decode>::complete(),
        <Elem as Decode>::dec_ok(buffer),
        c0 == buffer,
        c0 == seq![5u8] + c1,
        c1 == <RefType as Encode>::spec_enc(w1) + c2,
        <RefType as Encode>::spec_wf(w1),
        <RefType as Decode>::tail_stop(c2),
    ensures
        <Vec<Expr> as Decode>::dec_ok(c2),
{
    let (w, e) = choose|w: SpecElem, e: Seq<u8>|
        <Elem as Encode>::spec_wf(w) && buffer == <Elem as Encode>::spec_enc(w)
            + e && <Elem as Decode>::tail_stop(e);
    lemma_elem_head(w);
    assert((<Elem as Encode>::spec_enc(w) + e)[0]
        == <Elem as Encode>::spec_enc(w)[0]);
    assert(buffer[0] == elem_op(w));
    assert(elem_op(w) == 5u8);
    match w {
        SpecElem::E5(wv0, wv1) => {
            assert(buffer =~= seq![5u8] + (<RefType as Encode>::spec_enc(wv0) + (<Vec<Expr> as Encode>::spec_enc(wv1) + (e))));
            lemma_concat_cancel(seq![5u8], c1, seq![5u8], <RefType as Encode>::spec_enc(wv0) + (<Vec<Expr> as Encode>::spec_enc(wv1) + (e)));
            assert(c1 == <RefType as Encode>::spec_enc(wv0) + (<Vec<Expr> as Encode>::spec_enc(wv1) + (e)));
            <RefType as Decode>::lemma_plain(c2);
            <RefType as Decode>::lemma_plain(<Vec<Expr> as Encode>::spec_enc(wv1) + (e));
            <RefType as Decode>::lemma_unamb(w1, wv0, c2, <Vec<Expr> as Encode>::spec_enc(wv1) + (e));
            assert(c2 == <Vec<Expr> as Encode>::spec_enc(wv1) + (e));
            assert(c2 == <Vec<Expr> as Encode>::spec_enc(wv1) + (e));
            <Vec<Expr> as Decode>::lemma_plain(e);
            <Vec<Expr> as Decode>::lemma_covers(wv1, e);
            assert(<Vec<Expr> as Decode>::dec_ok(c2));
        },
        _ => {
            assert(false);
        },
    }
}

/// What a claimed parse of `Elem` says about the bytes at this point.
#[verifier::rlimit(100)]
proof fn lemma_err_elem_e6_1_fail(buffer: Seq<u8>, c0: Seq<u8>, c1: Seq<u8>)
    requires
        <Elem as Decode>::complete(),
        <Elem as Decode>::dec_ok(buffer),
        c0 == buffer,
        c0 == seq![6u8] + c1,
    ensures
        <TableIdx as Decode>::dec_ok(c1),
{
    let (w, e) = choose|w: SpecElem, e: Seq<u8>|
        <Elem as Encode>::spec_wf(w) && buffer == <Elem as Encode>::spec_enc(w)
            + e && <Elem as Decode>::tail_stop(e);
    lemma_elem_head(w);
    assert((<Elem as Encode>::spec_enc(w) + e)[0]
        == <Elem as Encode>::spec_enc(w)[0]);
    assert(buffer[0] == elem_op(w));
    assert(elem_op(w) == 6u8);
    match w {
        SpecElem::E6(wv0, wv1, wv2, wv3) => {
            assert(buffer =~= seq![6u8] + (<TableIdx as Encode>::spec_enc(wv0) + (<Expr as Encode>::spec_enc(wv1) + (<RefType as Encode>::spec_enc(wv2) + (<Vec<Expr> as Encode>::spec_enc(wv3) + (e))))));
            lemma_concat_cancel(seq![6u8], c1, seq![6u8], <TableIdx as Encode>::spec_enc(wv0) + (<Expr as Encode>::spec_enc(wv1) + (<RefType as Encode>::spec_enc(wv2) + (<Vec<Expr> as Encode>::spec_enc(wv3) + (e)))));
            assert(c1 == <TableIdx as Encode>::spec_enc(wv0) + (<Expr as Encode>::spec_enc(wv1) + (<RefType as Encode>::spec_enc(wv2) + (<Vec<Expr> as Encode>::spec_enc(wv3) + (e)))));
            assert(c1 == <TableIdx as Encode>::spec_enc(wv0) + (<Expr as Encode>::spec_enc(wv1) + (<RefType as Encode>::spec_enc(wv2) + (<Vec<Expr> as Encode>::spec_enc(wv3) + (e)))));
            <TableIdx as Decode>::lemma_plain(<Expr as Encode>::spec_enc(wv1) + (<RefType as Encode>::spec_enc(wv2) + (<Vec<Expr> as Encode>::spec_enc(wv3) + (e))));
            <TableIdx as Decode>::lemma_covers(wv0, <Expr as Encode>::spec_enc(wv1) + (<RefType as Encode>::spec_enc(wv2) + (<Vec<Expr> as Encode>::spec_enc(wv3) + (e))));
            assert(<TableIdx as Decode>::dec_ok(c1));
        },
        _ => {
            assert(false);
        },
    }
}

/// What a claimed parse of `Elem` says about the bytes at this point.
#[verifier::rlimit(100)]
proof fn lemma_err_elem_e6_2_fail(buffer: Seq<u8>, c0: Seq<u8>, c1: Seq<u8>, c2: Seq<u8>, w1: TableIdx)
    requires
        <Elem as Decode>::complete(),
        <Elem as Decode>::dec_ok(buffer),
        c0 == buffer,
        c0 == seq![6u8] + c1,
        c1 == <TableIdx as Encode>::spec_enc(w1) + c2,
        <TableIdx as Encode>::spec_wf(w1),
        <TableIdx as Decode>::tail_stop(c2),
    ensures
        <Expr as Decode>::dec_ok(c2),
{
    let (w, e) = choose|w: SpecElem, e: Seq<u8>|
        <Elem as Encode>::spec_wf(w) && buffer == <Elem as Encode>::spec_enc(w)
            + e && <Elem as Decode>::tail_stop(e);
    lemma_elem_head(w);
    assert((<Elem as Encode>::spec_enc(w) + e)[0]
        == <Elem as Encode>::spec_enc(w)[0]);
    assert(buffer[0] == elem_op(w));
    assert(elem_op(w) == 6u8);
    match w {
        SpecElem::E6(wv0, wv1, wv2, wv3) => {
            assert(buffer =~= seq![6u8] + (<TableIdx as Encode>::spec_enc(wv0) + (<Expr as Encode>::spec_enc(wv1) + (<RefType as Encode>::spec_enc(wv2) + (<Vec<Expr> as Encode>::spec_enc(wv3) + (e))))));
            lemma_concat_cancel(seq![6u8], c1, seq![6u8], <TableIdx as Encode>::spec_enc(wv0) + (<Expr as Encode>::spec_enc(wv1) + (<RefType as Encode>::spec_enc(wv2) + (<Vec<Expr> as Encode>::spec_enc(wv3) + (e)))));
            assert(c1 == <TableIdx as Encode>::spec_enc(wv0) + (<Expr as Encode>::spec_enc(wv1) + (<RefType as Encode>::spec_enc(wv2) + (<Vec<Expr> as Encode>::spec_enc(wv3) + (e)))));
            <TableIdx as Decode>::lemma_plain(c2);
            <TableIdx as Decode>::lemma_plain(<Expr as Encode>::spec_enc(wv1) + (<RefType as Encode>::spec_enc(wv2) + (<Vec<Expr> as Encode>::spec_enc(wv3) + (e))));
            <TableIdx as Decode>::lemma_unamb(w1, wv0, c2, <Expr as Encode>::spec_enc(wv1) + (<RefType as Encode>::spec_enc(wv2) + (<Vec<Expr> as Encode>::spec_enc(wv3) + (e))));
            assert(c2 == <Expr as Encode>::spec_enc(wv1) + (<RefType as Encode>::spec_enc(wv2) + (<Vec<Expr> as Encode>::spec_enc(wv3) + (e))));
            assert(c2 == <Expr as Encode>::spec_enc(wv1) + (<RefType as Encode>::spec_enc(wv2) + (<Vec<Expr> as Encode>::spec_enc(wv3) + (e))));
            <Expr as Decode>::lemma_plain(<RefType as Encode>::spec_enc(wv2) + (<Vec<Expr> as Encode>::spec_enc(wv3) + (e)));
            <Expr as Decode>::lemma_covers(wv1, <RefType as Encode>::spec_enc(wv2) + (<Vec<Expr> as Encode>::spec_enc(wv3) + (e)));
            assert(<Expr as Decode>::dec_ok(c2));
        },
        _ => {
            assert(false);
        },
    }
}

/// What a claimed parse of `Elem` says about the bytes at this point.
#[verifier::rlimit(100)]
proof fn lemma_err_elem_e6_3_fail(buffer: Seq<u8>, c0: Seq<u8>, c1: Seq<u8>, c2: Seq<u8>, w1: TableIdx, c3: Seq<u8>, w2: Seq<SpecInstr>)
    requires
        <Elem as Decode>::complete(),
        <Elem as Decode>::dec_ok(buffer),
        c0 == buffer,
        c0 == seq![6u8] + c1,
        c1 == <TableIdx as Encode>::spec_enc(w1) + c2,
        <TableIdx as Encode>::spec_wf(w1),
        <TableIdx as Decode>::tail_stop(c2),
        c2 == <Expr as Encode>::spec_enc(w2) + c3,
        <Expr as Encode>::spec_wf(w2),
        <Expr as Decode>::tail_stop(c3),
    ensures
        <RefType as Decode>::dec_ok(c3),
{
    let (w, e) = choose|w: SpecElem, e: Seq<u8>|
        <Elem as Encode>::spec_wf(w) && buffer == <Elem as Encode>::spec_enc(w)
            + e && <Elem as Decode>::tail_stop(e);
    lemma_elem_head(w);
    assert((<Elem as Encode>::spec_enc(w) + e)[0]
        == <Elem as Encode>::spec_enc(w)[0]);
    assert(buffer[0] == elem_op(w));
    assert(elem_op(w) == 6u8);
    match w {
        SpecElem::E6(wv0, wv1, wv2, wv3) => {
            assert(buffer =~= seq![6u8] + (<TableIdx as Encode>::spec_enc(wv0) + (<Expr as Encode>::spec_enc(wv1) + (<RefType as Encode>::spec_enc(wv2) + (<Vec<Expr> as Encode>::spec_enc(wv3) + (e))))));
            lemma_concat_cancel(seq![6u8], c1, seq![6u8], <TableIdx as Encode>::spec_enc(wv0) + (<Expr as Encode>::spec_enc(wv1) + (<RefType as Encode>::spec_enc(wv2) + (<Vec<Expr> as Encode>::spec_enc(wv3) + (e)))));
            assert(c1 == <TableIdx as Encode>::spec_enc(wv0) + (<Expr as Encode>::spec_enc(wv1) + (<RefType as Encode>::spec_enc(wv2) + (<Vec<Expr> as Encode>::spec_enc(wv3) + (e)))));
            <TableIdx as Decode>::lemma_plain(c2);
            <TableIdx as Decode>::lemma_plain(<Expr as Encode>::spec_enc(wv1) + (<RefType as Encode>::spec_enc(wv2) + (<Vec<Expr> as Encode>::spec_enc(wv3) + (e))));
            <TableIdx as Decode>::lemma_unamb(w1, wv0, c2, <Expr as Encode>::spec_enc(wv1) + (<RefType as Encode>::spec_enc(wv2) + (<Vec<Expr> as Encode>::spec_enc(wv3) + (e))));
            assert(c2 == <Expr as Encode>::spec_enc(wv1) + (<RefType as Encode>::spec_enc(wv2) + (<Vec<Expr> as Encode>::spec_enc(wv3) + (e))));
            <Expr as Decode>::lemma_plain(c3);
            <Expr as Decode>::lemma_plain(<RefType as Encode>::spec_enc(wv2) + (<Vec<Expr> as Encode>::spec_enc(wv3) + (e)));
            <Expr as Decode>::lemma_unamb(w2, wv1, c3, <RefType as Encode>::spec_enc(wv2) + (<Vec<Expr> as Encode>::spec_enc(wv3) + (e)));
            assert(c3 == <RefType as Encode>::spec_enc(wv2) + (<Vec<Expr> as Encode>::spec_enc(wv3) + (e)));
            assert(c3 == <RefType as Encode>::spec_enc(wv2) + (<Vec<Expr> as Encode>::spec_enc(wv3) + (e)));
            <RefType as Decode>::lemma_plain(<Vec<Expr> as Encode>::spec_enc(wv3) + (e));
            <RefType as Decode>::lemma_covers(wv2, <Vec<Expr> as Encode>::spec_enc(wv3) + (e));
            assert(<RefType as Decode>::dec_ok(c3));
        },
        _ => {
            assert(false);
        },
    }
}

/// What a claimed parse of `Elem` says about the bytes at this point.
#[verifier::rlimit(100)]
proof fn lemma_err_elem_e6_4_fail(buffer: Seq<u8>, c0: Seq<u8>, c1: Seq<u8>, c2: Seq<u8>, w1: TableIdx, c3: Seq<u8>, w2: Seq<SpecInstr>, c4: Seq<u8>, w3: RefType)
    requires
        <Elem as Decode>::complete(),
        <Elem as Decode>::dec_ok(buffer),
        c0 == buffer,
        c0 == seq![6u8] + c1,
        c1 == <TableIdx as Encode>::spec_enc(w1) + c2,
        <TableIdx as Encode>::spec_wf(w1),
        <TableIdx as Decode>::tail_stop(c2),
        c2 == <Expr as Encode>::spec_enc(w2) + c3,
        <Expr as Encode>::spec_wf(w2),
        <Expr as Decode>::tail_stop(c3),
        c3 == <RefType as Encode>::spec_enc(w3) + c4,
        <RefType as Encode>::spec_wf(w3),
        <RefType as Decode>::tail_stop(c4),
    ensures
        <Vec<Expr> as Decode>::dec_ok(c4),
{
    let (w, e) = choose|w: SpecElem, e: Seq<u8>|
        <Elem as Encode>::spec_wf(w) && buffer == <Elem as Encode>::spec_enc(w)
            + e && <Elem as Decode>::tail_stop(e);
    lemma_elem_head(w);
    assert((<Elem as Encode>::spec_enc(w) + e)[0]
        == <Elem as Encode>::spec_enc(w)[0]);
    assert(buffer[0] == elem_op(w));
    assert(elem_op(w) == 6u8);
    match w {
        SpecElem::E6(wv0, wv1, wv2, wv3) => {
            assert(buffer =~= seq![6u8] + (<TableIdx as Encode>::spec_enc(wv0) + (<Expr as Encode>::spec_enc(wv1) + (<RefType as Encode>::spec_enc(wv2) + (<Vec<Expr> as Encode>::spec_enc(wv3) + (e))))));
            lemma_concat_cancel(seq![6u8], c1, seq![6u8], <TableIdx as Encode>::spec_enc(wv0) + (<Expr as Encode>::spec_enc(wv1) + (<RefType as Encode>::spec_enc(wv2) + (<Vec<Expr> as Encode>::spec_enc(wv3) + (e)))));
            assert(c1 == <TableIdx as Encode>::spec_enc(wv0) + (<Expr as Encode>::spec_enc(wv1) + (<RefType as Encode>::spec_enc(wv2) + (<Vec<Expr> as Encode>::spec_enc(wv3) + (e)))));
            <TableIdx as Decode>::lemma_plain(c2);
            <TableIdx as Decode>::lemma_plain(<Expr as Encode>::spec_enc(wv1) + (<RefType as Encode>::spec_enc(wv2) + (<Vec<Expr> as Encode>::spec_enc(wv3) + (e))));
            <TableIdx as Decode>::lemma_unamb(w1, wv0, c2, <Expr as Encode>::spec_enc(wv1) + (<RefType as Encode>::spec_enc(wv2) + (<Vec<Expr> as Encode>::spec_enc(wv3) + (e))));
            assert(c2 == <Expr as Encode>::spec_enc(wv1) + (<RefType as Encode>::spec_enc(wv2) + (<Vec<Expr> as Encode>::spec_enc(wv3) + (e))));
            <Expr as Decode>::lemma_plain(c3);
            <Expr as Decode>::lemma_plain(<RefType as Encode>::spec_enc(wv2) + (<Vec<Expr> as Encode>::spec_enc(wv3) + (e)));
            <Expr as Decode>::lemma_unamb(w2, wv1, c3, <RefType as Encode>::spec_enc(wv2) + (<Vec<Expr> as Encode>::spec_enc(wv3) + (e)));
            assert(c3 == <RefType as Encode>::spec_enc(wv2) + (<Vec<Expr> as Encode>::spec_enc(wv3) + (e)));
            <RefType as Decode>::lemma_plain(c4);
            <RefType as Decode>::lemma_plain(<Vec<Expr> as Encode>::spec_enc(wv3) + (e));
            <RefType as Decode>::lemma_unamb(w3, wv2, c4, <Vec<Expr> as Encode>::spec_enc(wv3) + (e));
            assert(c4 == <Vec<Expr> as Encode>::spec_enc(wv3) + (e));
            assert(c4 == <Vec<Expr> as Encode>::spec_enc(wv3) + (e));
            <Vec<Expr> as Decode>::lemma_plain(e);
            <Vec<Expr> as Decode>::lemma_covers(wv3, e);
            assert(<Vec<Expr> as Decode>::dec_ok(c4));
        },
        _ => {
            assert(false);
        },
    }
}

/// What a claimed parse of `Elem` says about the bytes at this point.
#[verifier::rlimit(100)]
proof fn lemma_err_elem_e7_1_fail(buffer: Seq<u8>, c0: Seq<u8>, c1: Seq<u8>)
    requires
        <Elem as Decode>::complete(),
        <Elem as Decode>::dec_ok(buffer),
        c0 == buffer,
        c0 == seq![7u8] + c1,
    ensures
        <RefType as Decode>::dec_ok(c1),
{
    let (w, e) = choose|w: SpecElem, e: Seq<u8>|
        <Elem as Encode>::spec_wf(w) && buffer == <Elem as Encode>::spec_enc(w)
            + e && <Elem as Decode>::tail_stop(e);
    lemma_elem_head(w);
    assert((<Elem as Encode>::spec_enc(w) + e)[0]
        == <Elem as Encode>::spec_enc(w)[0]);
    assert(buffer[0] == elem_op(w));
    assert(elem_op(w) == 7u8);
    match w {
        SpecElem::E7(wv0, wv1) => {
            assert(buffer =~= seq![7u8] + (<RefType as Encode>::spec_enc(wv0) + (<Vec<Expr> as Encode>::spec_enc(wv1) + (e))));
            lemma_concat_cancel(seq![7u8], c1, seq![7u8], <RefType as Encode>::spec_enc(wv0) + (<Vec<Expr> as Encode>::spec_enc(wv1) + (e)));
            assert(c1 == <RefType as Encode>::spec_enc(wv0) + (<Vec<Expr> as Encode>::spec_enc(wv1) + (e)));
            assert(c1 == <RefType as Encode>::spec_enc(wv0) + (<Vec<Expr> as Encode>::spec_enc(wv1) + (e)));
            <RefType as Decode>::lemma_plain(<Vec<Expr> as Encode>::spec_enc(wv1) + (e));
            <RefType as Decode>::lemma_covers(wv0, <Vec<Expr> as Encode>::spec_enc(wv1) + (e));
            assert(<RefType as Decode>::dec_ok(c1));
        },
        _ => {
            assert(false);
        },
    }
}

/// What a claimed parse of `Elem` says about the bytes at this point.
#[verifier::rlimit(100)]
proof fn lemma_err_elem_e7_2_fail(buffer: Seq<u8>, c0: Seq<u8>, c1: Seq<u8>, c2: Seq<u8>, w1: RefType)
    requires
        <Elem as Decode>::complete(),
        <Elem as Decode>::dec_ok(buffer),
        c0 == buffer,
        c0 == seq![7u8] + c1,
        c1 == <RefType as Encode>::spec_enc(w1) + c2,
        <RefType as Encode>::spec_wf(w1),
        <RefType as Decode>::tail_stop(c2),
    ensures
        <Vec<Expr> as Decode>::dec_ok(c2),
{
    let (w, e) = choose|w: SpecElem, e: Seq<u8>|
        <Elem as Encode>::spec_wf(w) && buffer == <Elem as Encode>::spec_enc(w)
            + e && <Elem as Decode>::tail_stop(e);
    lemma_elem_head(w);
    assert((<Elem as Encode>::spec_enc(w) + e)[0]
        == <Elem as Encode>::spec_enc(w)[0]);
    assert(buffer[0] == elem_op(w));
    assert(elem_op(w) == 7u8);
    match w {
        SpecElem::E7(wv0, wv1) => {
            assert(buffer =~= seq![7u8] + (<RefType as Encode>::spec_enc(wv0) + (<Vec<Expr> as Encode>::spec_enc(wv1) + (e))));
            lemma_concat_cancel(seq![7u8], c1, seq![7u8], <RefType as Encode>::spec_enc(wv0) + (<Vec<Expr> as Encode>::spec_enc(wv1) + (e)));
            assert(c1 == <RefType as Encode>::spec_enc(wv0) + (<Vec<Expr> as Encode>::spec_enc(wv1) + (e)));
            <RefType as Decode>::lemma_plain(c2);
            <RefType as Decode>::lemma_plain(<Vec<Expr> as Encode>::spec_enc(wv1) + (e));
            <RefType as Decode>::lemma_unamb(w1, wv0, c2, <Vec<Expr> as Encode>::spec_enc(wv1) + (e));
            assert(c2 == <Vec<Expr> as Encode>::spec_enc(wv1) + (e));
            assert(c2 == <Vec<Expr> as Encode>::spec_enc(wv1) + (e));
            <Vec<Expr> as Decode>::lemma_plain(e);
            <Vec<Expr> as Decode>::lemma_covers(wv1, e);
            assert(<Vec<Expr> as Decode>::dec_ok(c2));
        },
        _ => {
            assert(false);
        },
    }
}

/// `Code` non-terminal of the binary grammar.
#[derive(Debug, PartialEq)]
pub struct Code(pub Sized<Func>);

/// Deep view of [`Code`]: the same shape over abstract sequences.
pub struct SpecCode(pub SpecFunc);

impl DeepView for Code {
    type V = SpecCode;

    open spec fn deep_view(&self) -> SpecCode {
        SpecCode(self.0.deep_view())
    }
}

impl Encode for Code {
    open spec fn spec_enc(v: SpecCode) -> Seq<u8> {
        <Sized<Func> as Encode>::spec_enc(v.0)
    }

    open spec fn spec_wf(v: SpecCode) -> bool {
        <Sized<Func> as Encode>::spec_wf(v.0)
    }

    #[verifier::rlimit(100)]
    fn encode(&self, buffer: &mut Vec<u8>) {
        self.0.encode(buffer);
        assert(buffer@ =~= old(buffer)@ + <Sized<Func> as Encode>::spec_enc(self.0.deep_view()));
        assert(buffer@ =~= old(buffer)@ + Self::spec_enc(self.deep_view()));
    }
}

impl Decode for Code {
    open spec fn complete() -> bool {
        <Sized<Func> as Decode>::complete()
    }

    #[verifier::rlimit(100)]
    proof fn lemma_plain(s: Seq<u8>) {
        assert forall|v: SpecCode| Self::spec_enc(v).len() >= 1 by {
            <Sized<Func> as Decode>::lemma_plain(s);
            assert(Self::spec_enc(v) =~= <Sized<Func> as Encode>::spec_enc(v.0));
        }
        if Self::dec_ok(Seq::<u8>::empty()) {
            let (v, e) = choose|v: SpecCode, e: Seq<u8>|
                Self::spec_wf(v) && Seq::<u8>::empty() == Self::spec_enc(v) + e
                    && Self::tail_stop(e);
            assert(Self::spec_enc(v).len() >= 1);
            assert(false);
        }
    }

    #[verifier::rlimit(100)]
    proof fn lemma_unamb(v1: SpecCode, v2: SpecCode, e1: Seq<u8>, e2: Seq<u8>) {
        assert(Self::spec_enc(v1) + e1 =~= <Sized<Func> as Encode>::spec_enc(v1.0) + (e1));
        assert(Self::spec_enc(v2) + e2 =~= <Sized<Func> as Encode>::spec_enc(v2.0) + (e2));
        <Sized<Func> as Decode>::lemma_plain(e1);
        <Sized<Func> as Decode>::lemma_plain(e2);
        <Sized<Func> as Decode>::lemma_unamb(v1.0, v2.0, e1, e2);
        assert(e1 == e2);
        assert(v1 == SpecCode(v1.0) && v2 == SpecCode(v2.0));
    }

    proof fn lemma_covers(v: Self::V, e: Seq<u8>) {
        assert(Self::spec_wf(v) && Self::spec_enc(v) + e == Self::spec_enc(v) + e
            && Self::tail_stop(e));
    }

    #[verifier::rlimit(100)]
    fn decode(buffer: &[u8]) -> (r: DecodeResult<Self>) {
        let cur0 = buffer;
        let (f0, cur1) = match <Sized<Func> as Decode>::decode(cur0) {
            Ok(p) => p,
            Err(_) => {
                proof {
                    if Self::complete() && Self::dec_ok(buffer@) {
                        lemma_err_code_code_0_fail(buffer@, cur0@);
                    }
                }
                return Err(DecodeError::Error);
            },
        };
        assert(buffer@ =~= <Sized<Func> as Encode>::spec_enc(f0.deep_view()) + cur1@);
        let result = Code(f0);
        proof {
            assert(Self::spec_enc(result.deep_view()) =~= <Sized<Func> as Encode>::spec_enc(f0.deep_view()));
            assert(buffer@ =~= Self::spec_enc(result.deep_view()) + cur1@);
            if Self::complete() {
                assert(Self::dec_ok(buffer@)) by {
                    assert(Self::spec_wf(result.deep_view()) && buffer@
                        == Self::spec_enc(result.deep_view()) + cur1@
                        && Self::tail_stop(cur1@));
                }
            }
        }
        Ok((result, cur1))
    }
}

/// What a claimed parse of `Code` says about the bytes at this point.
#[verifier::rlimit(100)]
proof fn lemma_err_code_code_0_fail(buffer: Seq<u8>, c0: Seq<u8>)
    requires
        <Code as Decode>::complete(),
        <Code as Decode>::dec_ok(buffer),
        c0 == buffer,
    ensures
        <Sized<Func> as Decode>::dec_ok(c0),
{
    let (w, e) = choose|w: SpecCode, e: Seq<u8>|
        <Code as Encode>::spec_wf(w) && buffer == <Code as Encode>::spec_enc(w)
            + e && <Code as Decode>::tail_stop(e);
    assert(buffer =~= <Sized<Func> as Encode>::spec_enc(w.0) + (e));
    assert(c0 == <Sized<Func> as Encode>::spec_enc(w.0) + (e));
    <Sized<Func> as Decode>::lemma_plain(e);
    <Sized<Func> as Decode>::lemma_covers(w.0, e);
    assert(<Sized<Func> as Decode>::dec_ok(c0));
}

/// `Func` non-terminal of the binary grammar.
#[derive(Debug, PartialEq)]
pub struct Func(pub Vec<Locals>, pub Expr);

/// Deep view of [`Func`]: the same shape over abstract sequences.
pub struct SpecFunc(pub Seq<Locals>, pub Seq<SpecInstr>);

impl DeepView for Func {
    type V = SpecFunc;

    open spec fn deep_view(&self) -> SpecFunc {
        SpecFunc(self.0.deep_view(), self.1.deep_view())
    }
}

impl Encode for Func {
    open spec fn spec_enc(v: SpecFunc) -> Seq<u8> {
        <Vec<Locals> as Encode>::spec_enc(v.0) + <Expr as Encode>::spec_enc(v.1)
    }

    open spec fn spec_wf(v: SpecFunc) -> bool {
        <Vec<Locals> as Encode>::spec_wf(v.0) && <Expr as Encode>::spec_wf(v.1)
    }

    #[verifier::rlimit(100)]
    fn encode(&self, buffer: &mut Vec<u8>) {
        self.0.encode(buffer);
        assert(buffer@ =~= old(buffer)@ + <Vec<Locals> as Encode>::spec_enc(self.0.deep_view()));
        self.1.encode(buffer);
        assert(buffer@ =~= old(buffer)@ + <Vec<Locals> as Encode>::spec_enc(self.0.deep_view()) + <Expr as Encode>::spec_enc(self.1.deep_view()));
        assert(buffer@ =~= old(buffer)@ + Self::spec_enc(self.deep_view()));
    }
}

impl Decode for Func {
    open spec fn complete() -> bool {
        <Vec<Locals> as Decode>::complete() && <Expr as Decode>::complete()
    }

    #[verifier::rlimit(100)]
    proof fn lemma_plain(s: Seq<u8>) {
        assert forall|v: SpecFunc| Self::spec_enc(v).len() >= 1 by {
            <Vec<Locals> as Decode>::lemma_plain(s);
            assert(Self::spec_enc(v) =~= <Vec<Locals> as Encode>::spec_enc(v.0) + <Expr as Encode>::spec_enc(v.1));
        }
        if Self::dec_ok(Seq::<u8>::empty()) {
            let (v, e) = choose|v: SpecFunc, e: Seq<u8>|
                Self::spec_wf(v) && Seq::<u8>::empty() == Self::spec_enc(v) + e
                    && Self::tail_stop(e);
            assert(Self::spec_enc(v).len() >= 1);
            assert(false);
        }
    }

    #[verifier::rlimit(100)]
    proof fn lemma_unamb(v1: SpecFunc, v2: SpecFunc, e1: Seq<u8>, e2: Seq<u8>) {
        assert(Self::spec_enc(v1) + e1 =~= <Vec<Locals> as Encode>::spec_enc(v1.0) + (<Expr as Encode>::spec_enc(v1.1) + (e1)));
        assert(Self::spec_enc(v2) + e2 =~= <Vec<Locals> as Encode>::spec_enc(v2.0) + (<Expr as Encode>::spec_enc(v2.1) + (e2)));
        <Vec<Locals> as Decode>::lemma_plain(<Expr as Encode>::spec_enc(v1.1) + (e1));
        <Vec<Locals> as Decode>::lemma_plain(<Expr as Encode>::spec_enc(v2.1) + (e2));
        <Vec<Locals> as Decode>::lemma_unamb(v1.0, v2.0, <Expr as Encode>::spec_enc(v1.1) + (e1), <Expr as Encode>::spec_enc(v2.1) + (e2));
        <Expr as Decode>::lemma_plain(e1);
        <Expr as Decode>::lemma_plain(e2);
        <Expr as Decode>::lemma_unamb(v1.1, v2.1, e1, e2);
        assert(e1 == e2);
        assert(v1 == SpecFunc(v1.0, v1.1) && v2 == SpecFunc(v2.0, v2.1));
    }

    proof fn lemma_covers(v: Self::V, e: Seq<u8>) {
        assert(Self::spec_wf(v) && Self::spec_enc(v) + e == Self::spec_enc(v) + e
            && Self::tail_stop(e));
    }

    #[verifier::rlimit(100)]
    fn decode(buffer: &[u8]) -> (r: DecodeResult<Self>) {
        let cur0 = buffer;
        let (f0, cur1) = match <Vec<Locals> as Decode>::decode(cur0) {
            Ok(p) => p,
            Err(_) => {
                proof {
                    if Self::complete() && Self::dec_ok(buffer@) {
                        lemma_err_func_func_0_fail(buffer@, cur0@);
                    }
                }
                return Err(DecodeError::Error);
            },
        };
        assert(buffer@ =~= <Vec<Locals> as Encode>::spec_enc(f0.deep_view()) + cur1@);
        let (f1, cur2) = match <Expr as Decode>::decode(cur1) {
            Ok(p) => p,
            Err(_) => {
                proof {
                    if Self::complete() && Self::dec_ok(buffer@) {
                        lemma_err_func_func_1_fail(buffer@, cur0@, cur1@, f0.deep_view());
                    }
                }
                return Err(DecodeError::Error);
            },
        };
        assert(buffer@ =~= <Vec<Locals> as Encode>::spec_enc(f0.deep_view()) + <Expr as Encode>::spec_enc(f1.deep_view()) + cur2@);
        let result = Func(f0, f1);
        proof {
            assert(Self::spec_enc(result.deep_view()) =~= <Vec<Locals> as Encode>::spec_enc(f0.deep_view()) + <Expr as Encode>::spec_enc(f1.deep_view()));
            assert(buffer@ =~= Self::spec_enc(result.deep_view()) + cur2@);
            if Self::complete() {
                assert(Self::dec_ok(buffer@)) by {
                    assert(Self::spec_wf(result.deep_view()) && buffer@
                        == Self::spec_enc(result.deep_view()) + cur2@
                        && Self::tail_stop(cur2@));
                }
            }
        }
        Ok((result, cur2))
    }
}

/// What a claimed parse of `Func` says about the bytes at this point.
#[verifier::rlimit(100)]
proof fn lemma_err_func_func_0_fail(buffer: Seq<u8>, c0: Seq<u8>)
    requires
        <Func as Decode>::complete(),
        <Func as Decode>::dec_ok(buffer),
        c0 == buffer,
    ensures
        <Vec<Locals> as Decode>::dec_ok(c0),
{
    let (w, e) = choose|w: SpecFunc, e: Seq<u8>|
        <Func as Encode>::spec_wf(w) && buffer == <Func as Encode>::spec_enc(w)
            + e && <Func as Decode>::tail_stop(e);
    assert(buffer =~= <Vec<Locals> as Encode>::spec_enc(w.0) + (<Expr as Encode>::spec_enc(w.1) + (e)));
    assert(c0 == <Vec<Locals> as Encode>::spec_enc(w.0) + (<Expr as Encode>::spec_enc(w.1) + (e)));
    <Vec<Locals> as Decode>::lemma_plain(<Expr as Encode>::spec_enc(w.1) + (e));
    <Vec<Locals> as Decode>::lemma_covers(w.0, <Expr as Encode>::spec_enc(w.1) + (e));
    assert(<Vec<Locals> as Decode>::dec_ok(c0));
}

/// What a claimed parse of `Func` says about the bytes at this point.
#[verifier::rlimit(100)]
proof fn lemma_err_func_func_1_fail(buffer: Seq<u8>, c0: Seq<u8>, c1: Seq<u8>, w0: Seq<Locals>)
    requires
        <Func as Decode>::complete(),
        <Func as Decode>::dec_ok(buffer),
        c0 == buffer,
        c0 == <Vec<Locals> as Encode>::spec_enc(w0) + c1,
        <Vec<Locals> as Encode>::spec_wf(w0),
        <Vec<Locals> as Decode>::tail_stop(c1),
    ensures
        <Expr as Decode>::dec_ok(c1),
{
    let (w, e) = choose|w: SpecFunc, e: Seq<u8>|
        <Func as Encode>::spec_wf(w) && buffer == <Func as Encode>::spec_enc(w)
            + e && <Func as Decode>::tail_stop(e);
    assert(buffer =~= <Vec<Locals> as Encode>::spec_enc(w.0) + (<Expr as Encode>::spec_enc(w.1) + (e)));
    <Vec<Locals> as Decode>::lemma_plain(c1);
    <Vec<Locals> as Decode>::lemma_plain(<Expr as Encode>::spec_enc(w.1) + (e));
    <Vec<Locals> as Decode>::lemma_unamb(w0, w.0, c1, <Expr as Encode>::spec_enc(w.1) + (e));
    assert(c1 == <Expr as Encode>::spec_enc(w.1) + (e));
    assert(c1 == <Expr as Encode>::spec_enc(w.1) + (e));
    <Expr as Decode>::lemma_plain(e);
    <Expr as Decode>::lemma_covers(w.1, e);
    assert(<Expr as Decode>::dec_ok(c1));
}

/// `Data` non-terminal of the binary grammar.
#[derive(Debug, PartialEq)]
pub enum Data {
    D0(Expr, Vec<u8>),
    D1(Vec<u8>),
    D2(MemIdx, Expr, Vec<u8>),
}

/// Deep view of [`Data`]: the same shape over abstract sequences.
pub enum SpecData {
    D0(Seq<SpecInstr>, Seq<u8>),
    D1(Seq<u8>),
    D2(MemIdx, Seq<SpecInstr>, Seq<u8>),
}

impl DeepView for Data {
    type V = SpecData;

    open spec fn deep_view(&self) -> SpecData {
        match self {
            Data::D0(a0, a1) => SpecData::D0(a0.deep_view(), a1.deep_view()),
            Data::D1(a0) => SpecData::D1(a0.deep_view()),
            Data::D2(a0, a1, a2) => SpecData::D2(a0.deep_view(), a1.deep_view(), a2.deep_view()),
        }
    }
}

impl Encode for Data {
    open spec fn spec_enc(v: SpecData) -> Seq<u8> {
        match v {
            SpecData::D0(a0, a1) => seq![0u8] + <Expr as Encode>::spec_enc(a0) + <Vec<u8> as Encode>::spec_enc(a1),
            SpecData::D1(a0) => seq![1u8] + <Vec<u8> as Encode>::spec_enc(a0),
            SpecData::D2(a0, a1, a2) => seq![2u8] + <MemIdx as Encode>::spec_enc(a0) + <Expr as Encode>::spec_enc(a1) + <Vec<u8> as Encode>::spec_enc(a2),
        }
    }

    open spec fn spec_wf(v: SpecData) -> bool {
        match v {
            SpecData::D0(a0, a1) => <Expr as Encode>::spec_wf(a0) && <Vec<u8> as Encode>::spec_wf(a1),
            SpecData::D1(a0) => <Vec<u8> as Encode>::spec_wf(a0),
            SpecData::D2(a0, a1, a2) => <MemIdx as Encode>::spec_wf(a0) && <Expr as Encode>::spec_wf(a1) && <Vec<u8> as Encode>::spec_wf(a2),
        }
    }

    #[verifier::rlimit(100)]
    fn encode(&self, buffer: &mut Vec<u8>) {
        match self {
            Data::D0(a0, a1) => {
                buffer.push(0u8);
                assert(buffer@ =~= old(buffer)@ + seq![0u8]);
                a0.encode(buffer);
                assert(buffer@ =~= old(buffer)@ + seq![0u8] + <Expr as Encode>::spec_enc(a0.deep_view()));
                a1.encode(buffer);
                assert(buffer@ =~= old(buffer)@ + seq![0u8] + <Expr as Encode>::spec_enc(a0.deep_view()) + <Vec<u8> as Encode>::spec_enc(a1.deep_view()));
            }
            Data::D1(a0) => {
                buffer.push(1u8);
                assert(buffer@ =~= old(buffer)@ + seq![1u8]);
                a0.encode(buffer);
                assert(buffer@ =~= old(buffer)@ + seq![1u8] + <Vec<u8> as Encode>::spec_enc(a0.deep_view()));
            }
            Data::D2(a0, a1, a2) => {
                buffer.push(2u8);
                assert(buffer@ =~= old(buffer)@ + seq![2u8]);
                a0.encode(buffer);
                assert(buffer@ =~= old(buffer)@ + seq![2u8] + <MemIdx as Encode>::spec_enc(a0.deep_view()));
                a1.encode(buffer);
                assert(buffer@ =~= old(buffer)@ + seq![2u8] + <MemIdx as Encode>::spec_enc(a0.deep_view()) + <Expr as Encode>::spec_enc(a1.deep_view()));
                a2.encode(buffer);
                assert(buffer@ =~= old(buffer)@ + seq![2u8] + <MemIdx as Encode>::spec_enc(a0.deep_view()) + <Expr as Encode>::spec_enc(a1.deep_view()) + <Vec<u8> as Encode>::spec_enc(a2.deep_view()));
            }
        }
        assert(buffer@ =~= old(buffer)@ + Self::spec_enc(self.deep_view()));
    }
}

/// First wire byte of each `Data` alternative: the discriminator.
pub open spec fn data_op(v: SpecData) -> u8 {
    match v {
        SpecData::D0(_, _) => 0u8,
        SpecData::D1(_) => 1u8,
        SpecData::D2(_, _, _) => 2u8,
    }
}

/// Every `Data` encoding starts with its discriminator byte.
pub proof fn lemma_data_head(v: SpecData)
    ensures
        <Data as Encode>::spec_enc(v).len() >= 1,
        <Data as Encode>::spec_enc(v)[0] == data_op(v),
{
    match v {
        SpecData::D0(a0, a1) => {
            assert(<Data as Encode>::spec_enc(v) =~= seq![0u8] + (<Expr as Encode>::spec_enc(a0) + <Vec<u8> as Encode>::spec_enc(a1)));
            assert((seq![0u8] + (<Expr as Encode>::spec_enc(a0) + <Vec<u8> as Encode>::spec_enc(a1)))[0] == 0u8);
        },
        SpecData::D1(a0) => {
            assert(<Data as Encode>::spec_enc(v) =~= seq![1u8] + (<Vec<u8> as Encode>::spec_enc(a0)));
            assert((seq![1u8] + (<Vec<u8> as Encode>::spec_enc(a0)))[0] == 1u8);
        },
        SpecData::D2(a0, a1, a2) => {
            assert(<Data as Encode>::spec_enc(v) =~= seq![2u8] + (<MemIdx as Encode>::spec_enc(a0) + <Expr as Encode>::spec_enc(a1) + <Vec<u8> as Encode>::spec_enc(a2)));
            assert((seq![2u8] + (<MemIdx as Encode>::spec_enc(a0) + <Expr as Encode>::spec_enc(a1) + <Vec<u8> as Encode>::spec_enc(a2)))[0] == 2u8);
        },
    }
}

impl Decode for Data {
    open spec fn complete() -> bool {
        <Expr as Decode>::complete() && <Vec<u8> as Decode>::complete() && <MemIdx as Decode>::complete()
    }

    #[verifier::rlimit(100)]
    proof fn lemma_plain(s: Seq<u8>) {
        assert forall|v: SpecData| Self::spec_enc(v).len() >= 1 by {
            lemma_data_head(v);
        }
        if Self::dec_ok(Seq::<u8>::empty()) {
            let (v, e) = choose|v: SpecData, e: Seq<u8>|
                Self::spec_wf(v) && Seq::<u8>::empty() == Self::spec_enc(v) + e
                    && Self::tail_stop(e);
            assert(Self::spec_enc(v).len() >= 1);
            assert(false);
        }
    }

    #[verifier::rlimit(100)]
    proof fn lemma_unamb(v1: SpecData, v2: SpecData, e1: Seq<u8>, e2: Seq<u8>) {
        lemma_data_head(v1);
        lemma_data_head(v2);
        assert((Self::spec_enc(v1) + e1)[0] == Self::spec_enc(v1)[0]);
        assert((Self::spec_enc(v2) + e2)[0] == Self::spec_enc(v2)[0]);
        assert(data_op(v1) == data_op(v2));
        match v1 {
            SpecData::D0(a0, a1) => {
                match v2 {
                    SpecData::D0(b0, b1) => {
                        assert(Self::spec_enc(v1) + e1 =~= seq![0u8] + (<Expr as Encode>::spec_enc(a0) + (<Vec<u8> as Encode>::spec_enc(a1) + (e1))));
                        assert(Self::spec_enc(v2) + e2 =~= seq![0u8] + (<Expr as Encode>::spec_enc(b0) + (<Vec<u8> as Encode>::spec_enc(b1) + (e2))));
                        lemma_concat_cancel(seq![0u8], <Expr as Encode>::spec_enc(a0) + (<Vec<u8> as Encode>::spec_enc(a1) + (e1)), seq![0u8], <Expr as Encode>::spec_enc(b0) + (<Vec<u8> as Encode>::spec_enc(b1) + (e2)));
                        <Expr as Decode>::lemma_plain(<Vec<u8> as Encode>::spec_enc(a1) + (e1));
                        <Expr as Decode>::lemma_plain(<Vec<u8> as Encode>::spec_enc(b1) + (e2));
                        <Expr as Decode>::lemma_unamb(a0, b0, <Vec<u8> as Encode>::spec_enc(a1) + (e1), <Vec<u8> as Encode>::spec_enc(b1) + (e2));
                        <Vec<u8> as Decode>::lemma_plain(e1);
                        <Vec<u8> as Decode>::lemma_plain(e2);
                        <Vec<u8> as Decode>::lemma_unamb(a1, b1, e1, e2);
                        assert(e1 == e2);
                        assert(a0 == b0 && a1 == b1);
                        assert(v1 == v2);
                    },
                    _ => {
                        assert(false);
                    },
                }
            },
            SpecData::D1(a0) => {
                match v2 {
                    SpecData::D1(b0) => {
                        assert(Self::spec_enc(v1) + e1 =~= seq![1u8] + (<Vec<u8> as Encode>::spec_enc(a0) + (e1)));
                        assert(Self::spec_enc(v2) + e2 =~= seq![1u8] + (<Vec<u8> as Encode>::spec_enc(b0) + (e2)));
                        lemma_concat_cancel(seq![1u8], <Vec<u8> as Encode>::spec_enc(a0) + (e1), seq![1u8], <Vec<u8> as Encode>::spec_enc(b0) + (e2));
                        <Vec<u8> as Decode>::lemma_plain(e1);
                        <Vec<u8> as Decode>::lemma_plain(e2);
                        <Vec<u8> as Decode>::lemma_unamb(a0, b0, e1, e2);
                        assert(e1 == e2);
                        assert(a0 == b0);
                        assert(v1 == v2);
                    },
                    _ => {
                        assert(false);
                    },
                }
            },
            SpecData::D2(a0, a1, a2) => {
                match v2 {
                    SpecData::D2(b0, b1, b2) => {
                        assert(Self::spec_enc(v1) + e1 =~= seq![2u8] + (<MemIdx as Encode>::spec_enc(a0) + (<Expr as Encode>::spec_enc(a1) + (<Vec<u8> as Encode>::spec_enc(a2) + (e1)))));
                        assert(Self::spec_enc(v2) + e2 =~= seq![2u8] + (<MemIdx as Encode>::spec_enc(b0) + (<Expr as Encode>::spec_enc(b1) + (<Vec<u8> as Encode>::spec_enc(b2) + (e2)))));
                        lemma_concat_cancel(seq![2u8], <MemIdx as Encode>::spec_enc(a0) + (<Expr as Encode>::spec_enc(a1) + (<Vec<u8> as Encode>::spec_enc(a2) + (e1))), seq![2u8], <MemIdx as Encode>::spec_enc(b0) + (<Expr as Encode>::spec_enc(b1) + (<Vec<u8> as Encode>::spec_enc(b2) + (e2))));
                        <MemIdx as Decode>::lemma_plain(<Expr as Encode>::spec_enc(a1) + (<Vec<u8> as Encode>::spec_enc(a2) + (e1)));
                        <MemIdx as Decode>::lemma_plain(<Expr as Encode>::spec_enc(b1) + (<Vec<u8> as Encode>::spec_enc(b2) + (e2)));
                        <MemIdx as Decode>::lemma_unamb(a0, b0, <Expr as Encode>::spec_enc(a1) + (<Vec<u8> as Encode>::spec_enc(a2) + (e1)), <Expr as Encode>::spec_enc(b1) + (<Vec<u8> as Encode>::spec_enc(b2) + (e2)));
                        <Expr as Decode>::lemma_plain(<Vec<u8> as Encode>::spec_enc(a2) + (e1));
                        <Expr as Decode>::lemma_plain(<Vec<u8> as Encode>::spec_enc(b2) + (e2));
                        <Expr as Decode>::lemma_unamb(a1, b1, <Vec<u8> as Encode>::spec_enc(a2) + (e1), <Vec<u8> as Encode>::spec_enc(b2) + (e2));
                        <Vec<u8> as Decode>::lemma_plain(e1);
                        <Vec<u8> as Decode>::lemma_plain(e2);
                        <Vec<u8> as Decode>::lemma_unamb(a2, b2, e1, e2);
                        assert(e1 == e2);
                        assert(a0 == b0 && a1 == b1 && a2 == b2);
                        assert(v1 == v2);
                    },
                    _ => {
                        assert(false);
                    },
                }
            },
        }
    }

    proof fn lemma_covers(v: Self::V, e: Seq<u8>) {
        assert(Self::spec_wf(v) && Self::spec_enc(v) + e == Self::spec_enc(v) + e
            && Self::tail_stop(e));
    }

    #[verifier::rlimit(100)]
    fn decode(buffer: &[u8]) -> (r: DecodeResult<Self>) {
        if buffer.len() == 0 {
            proof {
                if Self::complete() && Self::dec_ok(buffer@) {
                    let (w, e) = choose|w: SpecData, e: Seq<u8>|
                        Self::spec_wf(w) && buffer@ == Self::spec_enc(w) + e
                            && Self::tail_stop(e);
                    lemma_data_head(w);
                    assert(false);
                }
            }
            return Err(DecodeError::Error);
        }
        let b0 = buffer[0];
        match b0 {
            0u8 => {
                let cur0 = buffer;
                let (lit0, cur1) = match <u8 as Decode>::decode(cur0) {
                    Ok(p) => p,
                    Err(_) => {
                        proof {
                            assert(cur0@.len() >= 1);
                            assert(false);
                        }
                        return Err(DecodeError::Error);
                    },
                };
                if lit0 != 0u8 {
                    proof {
                        assert(cur0@[0] == lit0);
                        assert(false);
                    }
                    return Err(DecodeError::Error);
                }
                assert(buffer@ =~= seq![0u8] + cur1@);
                let (f1, cur2) = match <Expr as Decode>::decode(cur1) {
                    Ok(p) => p,
                    Err(_) => {
                        proof {
                            if Self::complete() && Self::dec_ok(buffer@) {
                                lemma_err_data_d0_1_fail(buffer@, cur0@, cur1@);
                            }
                        }
                        return Err(DecodeError::Error);
                    },
                };
                assert(buffer@ =~= seq![0u8] + <Expr as Encode>::spec_enc(f1.deep_view()) + cur2@);
                let (f2, cur3) = match <Vec<u8> as Decode>::decode(cur2) {
                    Ok(p) => p,
                    Err(_) => {
                        proof {
                            if Self::complete() && Self::dec_ok(buffer@) {
                                lemma_err_data_d0_2_fail(buffer@, cur0@, cur1@, cur2@, f1.deep_view());
                            }
                        }
                        return Err(DecodeError::Error);
                    },
                };
                assert(buffer@ =~= seq![0u8] + <Expr as Encode>::spec_enc(f1.deep_view()) + <Vec<u8> as Encode>::spec_enc(f2.deep_view()) + cur3@);
                let result = Data::D0(f1, f2);
                proof {
                    assert(Self::spec_enc(result.deep_view()) =~= seq![0u8] + <Expr as Encode>::spec_enc(f1.deep_view()) + <Vec<u8> as Encode>::spec_enc(f2.deep_view()));
                    assert(buffer@ =~= Self::spec_enc(result.deep_view()) + cur3@);
                    if Self::complete() {
                        assert(Self::dec_ok(buffer@)) by {
                            assert(Self::spec_wf(result.deep_view()) && buffer@
                                == Self::spec_enc(result.deep_view()) + cur3@
                                && Self::tail_stop(cur3@));
                        }
                    }
                }
                Ok((result, cur3))
            },
            1u8 => {
                let cur0 = buffer;
                let (lit0, cur1) = match <u8 as Decode>::decode(cur0) {
                    Ok(p) => p,
                    Err(_) => {
                        proof {
                            assert(cur0@.len() >= 1);
                            assert(false);
                        }
                        return Err(DecodeError::Error);
                    },
                };
                if lit0 != 1u8 {
                    proof {
                        assert(cur0@[0] == lit0);
                        assert(false);
                    }
                    return Err(DecodeError::Error);
                }
                assert(buffer@ =~= seq![1u8] + cur1@);
                let (f1, cur2) = match <Vec<u8> as Decode>::decode(cur1) {
                    Ok(p) => p,
                    Err(_) => {
                        proof {
                            if Self::complete() && Self::dec_ok(buffer@) {
                                lemma_err_data_d1_1_fail(buffer@, cur0@, cur1@);
                            }
                        }
                        return Err(DecodeError::Error);
                    },
                };
                assert(buffer@ =~= seq![1u8] + <Vec<u8> as Encode>::spec_enc(f1.deep_view()) + cur2@);
                let result = Data::D1(f1);
                proof {
                    assert(Self::spec_enc(result.deep_view()) =~= seq![1u8] + <Vec<u8> as Encode>::spec_enc(f1.deep_view()));
                    assert(buffer@ =~= Self::spec_enc(result.deep_view()) + cur2@);
                    if Self::complete() {
                        assert(Self::dec_ok(buffer@)) by {
                            assert(Self::spec_wf(result.deep_view()) && buffer@
                                == Self::spec_enc(result.deep_view()) + cur2@
                                && Self::tail_stop(cur2@));
                        }
                    }
                }
                Ok((result, cur2))
            },
            2u8 => {
                let cur0 = buffer;
                let (lit0, cur1) = match <u8 as Decode>::decode(cur0) {
                    Ok(p) => p,
                    Err(_) => {
                        proof {
                            assert(cur0@.len() >= 1);
                            assert(false);
                        }
                        return Err(DecodeError::Error);
                    },
                };
                if lit0 != 2u8 {
                    proof {
                        assert(cur0@[0] == lit0);
                        assert(false);
                    }
                    return Err(DecodeError::Error);
                }
                assert(buffer@ =~= seq![2u8] + cur1@);
                let (f1, cur2) = match <MemIdx as Decode>::decode(cur1) {
                    Ok(p) => p,
                    Err(_) => {
                        proof {
                            if Self::complete() && Self::dec_ok(buffer@) {
                                lemma_err_data_d2_1_fail(buffer@, cur0@, cur1@);
                            }
                        }
                        return Err(DecodeError::Error);
                    },
                };
                assert(buffer@ =~= seq![2u8] + <MemIdx as Encode>::spec_enc(f1.deep_view()) + cur2@);
                let (f2, cur3) = match <Expr as Decode>::decode(cur2) {
                    Ok(p) => p,
                    Err(_) => {
                        proof {
                            if Self::complete() && Self::dec_ok(buffer@) {
                                lemma_err_data_d2_2_fail(buffer@, cur0@, cur1@, cur2@, f1.deep_view());
                            }
                        }
                        return Err(DecodeError::Error);
                    },
                };
                assert(buffer@ =~= seq![2u8] + <MemIdx as Encode>::spec_enc(f1.deep_view()) + <Expr as Encode>::spec_enc(f2.deep_view()) + cur3@);
                let (f3, cur4) = match <Vec<u8> as Decode>::decode(cur3) {
                    Ok(p) => p,
                    Err(_) => {
                        proof {
                            if Self::complete() && Self::dec_ok(buffer@) {
                                lemma_err_data_d2_3_fail(buffer@, cur0@, cur1@, cur2@, f1.deep_view(), cur3@, f2.deep_view());
                            }
                        }
                        return Err(DecodeError::Error);
                    },
                };
                assert(buffer@ =~= seq![2u8] + <MemIdx as Encode>::spec_enc(f1.deep_view()) + <Expr as Encode>::spec_enc(f2.deep_view()) + <Vec<u8> as Encode>::spec_enc(f3.deep_view()) + cur4@);
                let result = Data::D2(f1, f2, f3);
                proof {
                    assert(Self::spec_enc(result.deep_view()) =~= seq![2u8] + <MemIdx as Encode>::spec_enc(f1.deep_view()) + <Expr as Encode>::spec_enc(f2.deep_view()) + <Vec<u8> as Encode>::spec_enc(f3.deep_view()));
                    assert(buffer@ =~= Self::spec_enc(result.deep_view()) + cur4@);
                    if Self::complete() {
                        assert(Self::dec_ok(buffer@)) by {
                            assert(Self::spec_wf(result.deep_view()) && buffer@
                                == Self::spec_enc(result.deep_view()) + cur4@
                                && Self::tail_stop(cur4@));
                        }
                    }
                }
                Ok((result, cur4))
            },
            _ => {
                proof {
                    if Self::complete() && Self::dec_ok(buffer@) {
                        let (w, e) = choose|w: SpecData, e: Seq<u8>|
                            Self::spec_wf(w) && buffer@ == Self::spec_enc(w) + e
                                && Self::tail_stop(e);
                        lemma_data_head(w);
                        assert((Self::spec_enc(w) + e)[0] == Self::spec_enc(w)[0]);
                        assert(buffer@[0] == data_op(w));
                        assert(false);
                    }
                }
                Err(DecodeError::Error)
            },
        }
    }
}

/// What a claimed parse of `Data` says about the bytes at this point.
#[verifier::rlimit(100)]
proof fn lemma_err_data_d0_1_fail(buffer: Seq<u8>, c0: Seq<u8>, c1: Seq<u8>)
    requires
        <Data as Decode>::complete(),
        <Data as Decode>::dec_ok(buffer),
        c0 == buffer,
        c0 == seq![0u8] + c1,
    ensures
        <Expr as Decode>::dec_ok(c1),
{
    let (w, e) = choose|w: SpecData, e: Seq<u8>|
        <Data as Encode>::spec_wf(w) && buffer == <Data as Encode>::spec_enc(w)
            + e && <Data as Decode>::tail_stop(e);
    lemma_data_head(w);
    assert((<Data as Encode>::spec_enc(w) + e)[0]
        == <Data as Encode>::spec_enc(w)[0]);
    assert(buffer[0] == data_op(w));
    assert(data_op(w) == 0u8);
    match w {
        SpecData::D0(wv0, wv1) => {
            assert(buffer =~= seq![0u8] + (<Expr as Encode>::spec_enc(wv0) + (<Vec<u8> as Encode>::spec_enc(wv1) + (e))));
            lemma_concat_cancel(seq![0u8], c1, seq![0u8], <Expr as Encode>::spec_enc(wv0) + (<Vec<u8> as Encode>::spec_enc(wv1) + (e)));
            assert(c1 == <Expr as Encode>::spec_enc(wv0) + (<Vec<u8> as Encode>::spec_enc(wv1) + (e)));
            assert(c1 == <Expr as Encode>::spec_enc(wv0) + (<Vec<u8> as Encode>::spec_enc(wv1) + (e)));
            <Expr as Decode>::lemma_plain(<Vec<u8> as Encode>::spec_enc(wv1) + (e));
            <Expr as Decode>::lemma_covers(wv0, <Vec<u8> as Encode>::spec_enc(wv1) + (e));
            assert(<Expr as Decode>::dec_ok(c1));
        },
        _ => {
            assert(false);
        },
    }
}

/// What a claimed parse of `Data` says about the bytes at this point.
#[verifier::rlimit(100)]
proof fn lemma_err_data_d0_2_fail(buffer: Seq<u8>, c0: Seq<u8>, c1: Seq<u8>, c2: Seq<u8>, w1: Seq<SpecInstr>)
    requires
        <Data as Decode>::complete(),
        <Data as Decode>::dec_ok(buffer),
        c0 == buffer,
        c0 == seq![0u8] + c1,
        c1 == <Expr as Encode>::spec_enc(w1) + c2,
        <Expr as Encode>::spec_wf(w1),
        <Expr as Decode>::tail_stop(c2),
    ensures
        <Vec<u8> as Decode>::dec_ok(c2),
{
    let (w, e) = choose|w: SpecData, e: Seq<u8>|
        <Data as Encode>::spec_wf(w) && buffer == <Data as Encode>::spec_enc(w)
            + e && <Data as Decode>::tail_stop(e);
    lemma_data_head(w);
    assert((<Data as Encode>::spec_enc(w) + e)[0]
        == <Data as Encode>::spec_enc(w)[0]);
    assert(buffer[0] == data_op(w));
    assert(data_op(w) == 0u8);
    match w {
        SpecData::D0(wv0, wv1) => {
            assert(buffer =~= seq![0u8] + (<Expr as Encode>::spec_enc(wv0) + (<Vec<u8> as Encode>::spec_enc(wv1) + (e))));
            lemma_concat_cancel(seq![0u8], c1, seq![0u8], <Expr as Encode>::spec_enc(wv0) + (<Vec<u8> as Encode>::spec_enc(wv1) + (e)));
            assert(c1 == <Expr as Encode>::spec_enc(wv0) + (<Vec<u8> as Encode>::spec_enc(wv1) + (e)));
            <Expr as Decode>::lemma_plain(c2);
            <Expr as Decode>::lemma_plain(<Vec<u8> as Encode>::spec_enc(wv1) + (e));
            <Expr as Decode>::lemma_unamb(w1, wv0, c2, <Vec<u8> as Encode>::spec_enc(wv1) + (e));
            assert(c2 == <Vec<u8> as Encode>::spec_enc(wv1) + (e));
            assert(c2 == <Vec<u8> as Encode>::spec_enc(wv1) + (e));
            <Vec<u8> as Decode>::lemma_plain(e);
            <Vec<u8> as Decode>::lemma_covers(wv1, e);
            assert(<Vec<u8> as Decode>::dec_ok(c2));
        },
        _ => {
            assert(false);
        },
    }
}

/// What a claimed parse of `Data` says about the bytes at this point.
#[verifier::rlimit(100)]
proof fn lemma_err_data_d1_1_fail(buffer: Seq<u8>, c0: Seq<u8>, c1: Seq<u8>)
    requires
        <Data as Decode>::complete(),
        <Data as Decode>::dec_ok(buffer),
        c0 == buffer,
        c0 == seq![1u8] + c1,
    ensures
        <Vec<u8> as Decode>::dec_ok(c1),
{
    let (w, e) = choose|w: SpecData, e: Seq<u8>|
        <Data as Encode>::spec_wf(w) && buffer == <Data as Encode>::spec_enc(w)
            + e && <Data as Decode>::tail_stop(e);
    lemma_data_head(w);
    assert((<Data as Encode>::spec_enc(w) + e)[0]
        == <Data as Encode>::spec_enc(w)[0]);
    assert(buffer[0] == data_op(w));
    assert(data_op(w) == 1u8);
    match w {
        SpecData::D1(wv0) => {
            assert(buffer =~= seq![1u8] + (<Vec<u8> as Encode>::spec_enc(wv0) + (e)));
            lemma_concat_cancel(seq![1u8], c1, seq![1u8], <Vec<u8> as Encode>::spec_enc(wv0) + (e));
            assert(c1 == <Vec<u8> as Encode>::spec_enc(wv0) + (e));
            assert(c1 == <Vec<u8> as Encode>::spec_enc(wv0) + (e));
            <Vec<u8> as Decode>::lemma_plain(e);
            <Vec<u8> as Decode>::lemma_covers(wv0, e);
            assert(<Vec<u8> as Decode>::dec_ok(c1));
        },
        _ => {
            assert(false);
        },
    }
}

/// What a claimed parse of `Data` says about the bytes at this point.
#[verifier::rlimit(100)]
proof fn lemma_err_data_d2_1_fail(buffer: Seq<u8>, c0: Seq<u8>, c1: Seq<u8>)
    requires
        <Data as Decode>::complete(),
        <Data as Decode>::dec_ok(buffer),
        c0 == buffer,
        c0 == seq![2u8] + c1,
    ensures
        <MemIdx as Decode>::dec_ok(c1),
{
    let (w, e) = choose|w: SpecData, e: Seq<u8>|
        <Data as Encode>::spec_wf(w) && buffer == <Data as Encode>::spec_enc(w)
            + e && <Data as Decode>::tail_stop(e);
    lemma_data_head(w);
    assert((<Data as Encode>::spec_enc(w) + e)[0]
        == <Data as Encode>::spec_enc(w)[0]);
    assert(buffer[0] == data_op(w));
    assert(data_op(w) == 2u8);
    match w {
        SpecData::D2(wv0, wv1, wv2) => {
            assert(buffer =~= seq![2u8] + (<MemIdx as Encode>::spec_enc(wv0) + (<Expr as Encode>::spec_enc(wv1) + (<Vec<u8> as Encode>::spec_enc(wv2) + (e)))));
            lemma_concat_cancel(seq![2u8], c1, seq![2u8], <MemIdx as Encode>::spec_enc(wv0) + (<Expr as Encode>::spec_enc(wv1) + (<Vec<u8> as Encode>::spec_enc(wv2) + (e))));
            assert(c1 == <MemIdx as Encode>::spec_enc(wv0) + (<Expr as Encode>::spec_enc(wv1) + (<Vec<u8> as Encode>::spec_enc(wv2) + (e))));
            assert(c1 == <MemIdx as Encode>::spec_enc(wv0) + (<Expr as Encode>::spec_enc(wv1) + (<Vec<u8> as Encode>::spec_enc(wv2) + (e))));
            <MemIdx as Decode>::lemma_plain(<Expr as Encode>::spec_enc(wv1) + (<Vec<u8> as Encode>::spec_enc(wv2) + (e)));
            <MemIdx as Decode>::lemma_covers(wv0, <Expr as Encode>::spec_enc(wv1) + (<Vec<u8> as Encode>::spec_enc(wv2) + (e)));
            assert(<MemIdx as Decode>::dec_ok(c1));
        },
        _ => {
            assert(false);
        },
    }
}

/// What a claimed parse of `Data` says about the bytes at this point.
#[verifier::rlimit(100)]
proof fn lemma_err_data_d2_2_fail(buffer: Seq<u8>, c0: Seq<u8>, c1: Seq<u8>, c2: Seq<u8>, w1: MemIdx)
    requires
        <Data as Decode>::complete(),
        <Data as Decode>::dec_ok(buffer),
        c0 == buffer,
        c0 == seq![2u8] + c1,
        c1 == <MemIdx as Encode>::spec_enc(w1) + c2,
        <MemIdx as Encode>::spec_wf(w1),
        <MemIdx as Decode>::tail_stop(c2),
    ensures
        <Expr as Decode>::dec_ok(c2),
{
    let (w, e) = choose|w: SpecData, e: Seq<u8>|
        <Data as Encode>::spec_wf(w) && buffer == <Data as Encode>::spec_enc(w)
            + e && <Data as Decode>::tail_stop(e);
    lemma_data_head(w);
    assert((<Data as Encode>::spec_enc(w) + e)[0]
        == <Data as Encode>::spec_enc(w)[0]);
    assert(buffer[0] == data_op(w));
    assert(data_op(w) == 2u8);
    match w {
        SpecData::D2(wv0, wv1, wv2) => {
            assert(buffer =~= seq![2u8] + (<MemIdx as Encode>::spec_enc(wv0) + (<Expr as Encode>::spec_enc(wv1) + (<Vec<u8> as Encode>::spec_enc(wv2) + (e)))));
            lemma_concat_cancel(seq![2u8], c1, seq![2u8], <MemIdx as Encode>::spec_enc(wv0) + (<Expr as Encode>::spec_enc(wv1) + (<Vec<u8> as Encode>::spec_enc(wv2) + (e))));
            assert(c1 == <MemIdx as Encode>::spec_enc(wv0) + (<Expr as Encode>::spec_enc(wv1) + (<Vec<u8> as Encode>::spec_enc(wv2) + (e))));
            <MemIdx as Decode>::lemma_plain(c2);
            <MemIdx as Decode>::lemma_plain(<Expr as Encode>::spec_enc(wv1) + (<Vec<u8> as Encode>::spec_enc(wv2) + (e)));
            <MemIdx as Decode>::lemma_unamb(w1, wv0, c2, <Expr as Encode>::spec_enc(wv1) + (<Vec<u8> as Encode>::spec_enc(wv2) + (e)));
            assert(c2 == <Expr as Encode>::spec_enc(wv1) + (<Vec<u8> as Encode>::spec_enc(wv2) + (e)));
            assert(c2 == <Expr as Encode>::spec_enc(wv1) + (<Vec<u8> as Encode>::spec_enc(wv2) + (e)));
            <Expr as Decode>::lemma_plain(<Vec<u8> as Encode>::spec_enc(wv2) + (e));
            <Expr as Decode>::lemma_covers(wv1, <Vec<u8> as Encode>::spec_enc(wv2) + (e));
            assert(<Expr as Decode>::dec_ok(c2));
        },
        _ => {
            assert(false);
        },
    }
}

/// What a claimed parse of `Data` says about the bytes at this point.
#[verifier::rlimit(100)]
proof fn lemma_err_data_d2_3_fail(buffer: Seq<u8>, c0: Seq<u8>, c1: Seq<u8>, c2: Seq<u8>, w1: MemIdx, c3: Seq<u8>, w2: Seq<SpecInstr>)
    requires
        <Data as Decode>::complete(),
        <Data as Decode>::dec_ok(buffer),
        c0 == buffer,
        c0 == seq![2u8] + c1,
        c1 == <MemIdx as Encode>::spec_enc(w1) + c2,
        <MemIdx as Encode>::spec_wf(w1),
        <MemIdx as Decode>::tail_stop(c2),
        c2 == <Expr as Encode>::spec_enc(w2) + c3,
        <Expr as Encode>::spec_wf(w2),
        <Expr as Decode>::tail_stop(c3),
    ensures
        <Vec<u8> as Decode>::dec_ok(c3),
{
    let (w, e) = choose|w: SpecData, e: Seq<u8>|
        <Data as Encode>::spec_wf(w) && buffer == <Data as Encode>::spec_enc(w)
            + e && <Data as Decode>::tail_stop(e);
    lemma_data_head(w);
    assert((<Data as Encode>::spec_enc(w) + e)[0]
        == <Data as Encode>::spec_enc(w)[0]);
    assert(buffer[0] == data_op(w));
    assert(data_op(w) == 2u8);
    match w {
        SpecData::D2(wv0, wv1, wv2) => {
            assert(buffer =~= seq![2u8] + (<MemIdx as Encode>::spec_enc(wv0) + (<Expr as Encode>::spec_enc(wv1) + (<Vec<u8> as Encode>::spec_enc(wv2) + (e)))));
            lemma_concat_cancel(seq![2u8], c1, seq![2u8], <MemIdx as Encode>::spec_enc(wv0) + (<Expr as Encode>::spec_enc(wv1) + (<Vec<u8> as Encode>::spec_enc(wv2) + (e))));
            assert(c1 == <MemIdx as Encode>::spec_enc(wv0) + (<Expr as Encode>::spec_enc(wv1) + (<Vec<u8> as Encode>::spec_enc(wv2) + (e))));
            <MemIdx as Decode>::lemma_plain(c2);
            <MemIdx as Decode>::lemma_plain(<Expr as Encode>::spec_enc(wv1) + (<Vec<u8> as Encode>::spec_enc(wv2) + (e)));
            <MemIdx as Decode>::lemma_unamb(w1, wv0, c2, <Expr as Encode>::spec_enc(wv1) + (<Vec<u8> as Encode>::spec_enc(wv2) + (e)));
            assert(c2 == <Expr as Encode>::spec_enc(wv1) + (<Vec<u8> as Encode>::spec_enc(wv2) + (e)));
            <Expr as Decode>::lemma_plain(c3);
            <Expr as Decode>::lemma_plain(<Vec<u8> as Encode>::spec_enc(wv2) + (e));
            <Expr as Decode>::lemma_unamb(w2, wv1, c3, <Vec<u8> as Encode>::spec_enc(wv2) + (e));
            assert(c3 == <Vec<u8> as Encode>::spec_enc(wv2) + (e));
            assert(c3 == <Vec<u8> as Encode>::spec_enc(wv2) + (e));
            <Vec<u8> as Decode>::lemma_plain(e);
            <Vec<u8> as Decode>::lemma_covers(wv2, e);
            assert(<Vec<u8> as Decode>::dec_ok(c3));
        },
        _ => {
            assert(false);
        },
    }
}

/// `Section` non-terminal of the binary grammar.
#[derive(Debug, PartialEq)]
pub enum Section {
    Custom(Sized<Custom>),
    Type(Sized<Vec<FuncType>>),
    Import(Sized<Vec<Import>>),
    Function(Sized<Vec<TypeIdx>>),
    Table(Sized<Vec<Table>>),
    Mem(Sized<Vec<Mem>>),
    Global(Sized<Vec<Global>>),
    Export(Sized<Vec<Export>>),
    Start(Sized<FuncIdx>),
    Element(Sized<Vec<Elem>>),
    Code(Sized<Vec<Code>>),
    Data(Sized<Vec<Data>>),
    DataCount(Sized<u32>),
}

/// Deep view of [`Section`]: the same shape over abstract sequences.
pub enum SpecSection {
    Custom(SpecCustom),
    Type(Seq<SpecFuncType>),
    Import(Seq<SpecImport>),
    Function(Seq<TypeIdx>),
    Table(Seq<Table>),
    Mem(Seq<Mem>),
    Global(Seq<SpecGlobal>),
    Export(Seq<SpecExport>),
    Start(FuncIdx),
    Element(Seq<SpecElem>),
    Code(Seq<SpecCode>),
    Data(Seq<SpecData>),
    DataCount(u32),
}

impl DeepView for Section {
    type V = SpecSection;

    open spec fn deep_view(&self) -> SpecSection {
        match self {
            Section::Custom(a0) => SpecSection::Custom(a0.deep_view()),
            Section::Type(a0) => SpecSection::Type(a0.deep_view()),
            Section::Import(a0) => SpecSection::Import(a0.deep_view()),
            Section::Function(a0) => SpecSection::Function(a0.deep_view()),
            Section::Table(a0) => SpecSection::Table(a0.deep_view()),
            Section::Mem(a0) => SpecSection::Mem(a0.deep_view()),
            Section::Global(a0) => SpecSection::Global(a0.deep_view()),
            Section::Export(a0) => SpecSection::Export(a0.deep_view()),
            Section::Start(a0) => SpecSection::Start(a0.deep_view()),
            Section::Element(a0) => SpecSection::Element(a0.deep_view()),
            Section::Code(a0) => SpecSection::Code(a0.deep_view()),
            Section::Data(a0) => SpecSection::Data(a0.deep_view()),
            Section::DataCount(a0) => SpecSection::DataCount(a0.deep_view()),
        }
    }
}

impl Encode for Section {
    open spec fn spec_enc(v: SpecSection) -> Seq<u8> {
        match v {
            SpecSection::Custom(a0) => seq![0u8] + <Sized<Custom> as Encode>::spec_enc(a0),
            SpecSection::Type(a0) => seq![1u8] + <Sized<Vec<FuncType>> as Encode>::spec_enc(a0),
            SpecSection::Import(a0) => seq![2u8] + <Sized<Vec<Import>> as Encode>::spec_enc(a0),
            SpecSection::Function(a0) => seq![3u8] + <Sized<Vec<TypeIdx>> as Encode>::spec_enc(a0),
            SpecSection::Table(a0) => seq![4u8] + <Sized<Vec<Table>> as Encode>::spec_enc(a0),
            SpecSection::Mem(a0) => seq![5u8] + <Sized<Vec<Mem>> as Encode>::spec_enc(a0),
            SpecSection::Global(a0) => seq![6u8] + <Sized<Vec<Global>> as Encode>::spec_enc(a0),
            SpecSection::Export(a0) => seq![7u8] + <Sized<Vec<Export>> as Encode>::spec_enc(a0),
            SpecSection::Start(a0) => seq![8u8] + <Sized<FuncIdx> as Encode>::spec_enc(a0),
            SpecSection::Element(a0) => seq![9u8] + <Sized<Vec<Elem>> as Encode>::spec_enc(a0),
            SpecSection::Code(a0) => seq![10u8] + <Sized<Vec<Code>> as Encode>::spec_enc(a0),
            SpecSection::Data(a0) => seq![11u8] + <Sized<Vec<Data>> as Encode>::spec_enc(a0),
            SpecSection::DataCount(a0) => seq![12u8] + <Sized<u32> as Encode>::spec_enc(a0),
        }
    }

    open spec fn spec_wf(v: SpecSection) -> bool {
        match v {
            SpecSection::Custom(a0) => <Sized<Custom> as Encode>::spec_wf(a0),
            SpecSection::Type(a0) => <Sized<Vec<FuncType>> as Encode>::spec_wf(a0),
            SpecSection::Import(a0) => <Sized<Vec<Import>> as Encode>::spec_wf(a0),
            SpecSection::Function(a0) => <Sized<Vec<TypeIdx>> as Encode>::spec_wf(a0),
            SpecSection::Table(a0) => <Sized<Vec<Table>> as Encode>::spec_wf(a0),
            SpecSection::Mem(a0) => <Sized<Vec<Mem>> as Encode>::spec_wf(a0),
            SpecSection::Global(a0) => <Sized<Vec<Global>> as Encode>::spec_wf(a0),
            SpecSection::Export(a0) => <Sized<Vec<Export>> as Encode>::spec_wf(a0),
            SpecSection::Start(a0) => <Sized<FuncIdx> as Encode>::spec_wf(a0),
            SpecSection::Element(a0) => <Sized<Vec<Elem>> as Encode>::spec_wf(a0),
            SpecSection::Code(a0) => <Sized<Vec<Code>> as Encode>::spec_wf(a0),
            SpecSection::Data(a0) => <Sized<Vec<Data>> as Encode>::spec_wf(a0),
            SpecSection::DataCount(a0) => <Sized<u32> as Encode>::spec_wf(a0),
        }
    }

    #[verifier::rlimit(100)]
    fn encode(&self, buffer: &mut Vec<u8>) {
        match self {
            Section::Custom(a0) => {
                buffer.push(0u8);
                assert(buffer@ =~= old(buffer)@ + seq![0u8]);
                a0.encode(buffer);
                assert(buffer@ =~= old(buffer)@ + seq![0u8] + <Sized<Custom> as Encode>::spec_enc(a0.deep_view()));
            }
            Section::Type(a0) => {
                buffer.push(1u8);
                assert(buffer@ =~= old(buffer)@ + seq![1u8]);
                a0.encode(buffer);
                assert(buffer@ =~= old(buffer)@ + seq![1u8] + <Sized<Vec<FuncType>> as Encode>::spec_enc(a0.deep_view()));
            }
            Section::Import(a0) => {
                buffer.push(2u8);
                assert(buffer@ =~= old(buffer)@ + seq![2u8]);
                a0.encode(buffer);
                assert(buffer@ =~= old(buffer)@ + seq![2u8] + <Sized<Vec<Import>> as Encode>::spec_enc(a0.deep_view()));
            }
            Section::Function(a0) => {
                buffer.push(3u8);
                assert(buffer@ =~= old(buffer)@ + seq![3u8]);
                a0.encode(buffer);
                assert(buffer@ =~= old(buffer)@ + seq![3u8] + <Sized<Vec<TypeIdx>> as Encode>::spec_enc(a0.deep_view()));
            }
            Section::Table(a0) => {
                buffer.push(4u8);
                assert(buffer@ =~= old(buffer)@ + seq![4u8]);
                a0.encode(buffer);
                assert(buffer@ =~= old(buffer)@ + seq![4u8] + <Sized<Vec<Table>> as Encode>::spec_enc(a0.deep_view()));
            }
            Section::Mem(a0) => {
                buffer.push(5u8);
                assert(buffer@ =~= old(buffer)@ + seq![5u8]);
                a0.encode(buffer);
                assert(buffer@ =~= old(buffer)@ + seq![5u8] + <Sized<Vec<Mem>> as Encode>::spec_enc(a0.deep_view()));
            }
            Section::Global(a0) => {
                buffer.push(6u8);
                assert(buffer@ =~= old(buffer)@ + seq![6u8]);
                a0.encode(buffer);
                assert(buffer@ =~= old(buffer)@ + seq![6u8] + <Sized<Vec<Global>> as Encode>::spec_enc(a0.deep_view()));
            }
            Section::Export(a0) => {
                buffer.push(7u8);
                assert(buffer@ =~= old(buffer)@ + seq![7u8]);
                a0.encode(buffer);
                assert(buffer@ =~= old(buffer)@ + seq![7u8] + <Sized<Vec<Export>> as Encode>::spec_enc(a0.deep_view()));
            }
            Section::Start(a0) => {
                buffer.push(8u8);
                assert(buffer@ =~= old(buffer)@ + seq![8u8]);
                a0.encode(buffer);
                assert(buffer@ =~= old(buffer)@ + seq![8u8] + <Sized<FuncIdx> as Encode>::spec_enc(a0.deep_view()));
            }
            Section::Element(a0) => {
                buffer.push(9u8);
                assert(buffer@ =~= old(buffer)@ + seq![9u8]);
                a0.encode(buffer);
                assert(buffer@ =~= old(buffer)@ + seq![9u8] + <Sized<Vec<Elem>> as Encode>::spec_enc(a0.deep_view()));
            }
            Section::Code(a0) => {
                buffer.push(10u8);
                assert(buffer@ =~= old(buffer)@ + seq![10u8]);
                a0.encode(buffer);
                assert(buffer@ =~= old(buffer)@ + seq![10u8] + <Sized<Vec<Code>> as Encode>::spec_enc(a0.deep_view()));
            }
            Section::Data(a0) => {
                buffer.push(11u8);
                assert(buffer@ =~= old(buffer)@ + seq![11u8]);
                a0.encode(buffer);
                assert(buffer@ =~= old(buffer)@ + seq![11u8] + <Sized<Vec<Data>> as Encode>::spec_enc(a0.deep_view()));
            }
            Section::DataCount(a0) => {
                buffer.push(12u8);
                assert(buffer@ =~= old(buffer)@ + seq![12u8]);
                a0.encode(buffer);
                assert(buffer@ =~= old(buffer)@ + seq![12u8] + <Sized<u32> as Encode>::spec_enc(a0.deep_view()));
            }
        }
        assert(buffer@ =~= old(buffer)@ + Self::spec_enc(self.deep_view()));
    }
}

/// First wire byte of each `Section` alternative: the discriminator.
pub open spec fn section_op(v: SpecSection) -> u8 {
    match v {
        SpecSection::Custom(_) => 0u8,
        SpecSection::Type(_) => 1u8,
        SpecSection::Import(_) => 2u8,
        SpecSection::Function(_) => 3u8,
        SpecSection::Table(_) => 4u8,
        SpecSection::Mem(_) => 5u8,
        SpecSection::Global(_) => 6u8,
        SpecSection::Export(_) => 7u8,
        SpecSection::Start(_) => 8u8,
        SpecSection::Element(_) => 9u8,
        SpecSection::Code(_) => 10u8,
        SpecSection::Data(_) => 11u8,
        SpecSection::DataCount(_) => 12u8,
    }
}

/// Every `Section` encoding starts with its discriminator byte.
pub proof fn lemma_section_head(v: SpecSection)
    ensures
        <Section as Encode>::spec_enc(v).len() >= 1,
        <Section as Encode>::spec_enc(v)[0] == section_op(v),
{
    match v {
        SpecSection::Custom(a0) => {
            assert(<Section as Encode>::spec_enc(v) =~= seq![0u8] + (<Sized<Custom> as Encode>::spec_enc(a0)));
            assert((seq![0u8] + (<Sized<Custom> as Encode>::spec_enc(a0)))[0] == 0u8);
        },
        SpecSection::Type(a0) => {
            assert(<Section as Encode>::spec_enc(v) =~= seq![1u8] + (<Sized<Vec<FuncType>> as Encode>::spec_enc(a0)));
            assert((seq![1u8] + (<Sized<Vec<FuncType>> as Encode>::spec_enc(a0)))[0] == 1u8);
        },
        SpecSection::Import(a0) => {
            assert(<Section as Encode>::spec_enc(v) =~= seq![2u8] + (<Sized<Vec<Import>> as Encode>::spec_enc(a0)));
            assert((seq![2u8] + (<Sized<Vec<Import>> as Encode>::spec_enc(a0)))[0] == 2u8);
        },
        SpecSection::Function(a0) => {
            assert(<Section as Encode>::spec_enc(v) =~= seq![3u8] + (<Sized<Vec<TypeIdx>> as Encode>::spec_enc(a0)));
            assert((seq![3u8] + (<Sized<Vec<TypeIdx>> as Encode>::spec_enc(a0)))[0] == 3u8);
        },
        SpecSection::Table(a0) => {
            assert(<Section as Encode>::spec_enc(v) =~= seq![4u8] + (<Sized<Vec<Table>> as Encode>::spec_enc(a0)));
            assert((seq![4u8] + (<Sized<Vec<Table>> as Encode>::spec_enc(a0)))[0] == 4u8);
        },
        SpecSection::Mem(a0) => {
            assert(<Section as Encode>::spec_enc(v) =~= seq![5u8] + (<Sized<Vec<Mem>> as Encode>::spec_enc(a0)));
            assert((seq![5u8] + (<Sized<Vec<Mem>> as Encode>::spec_enc(a0)))[0] == 5u8);
        },
        SpecSection::Global(a0) => {
            assert(<Section as Encode>::spec_enc(v) =~= seq![6u8] + (<Sized<Vec<Global>> as Encode>::spec_enc(a0)));
            assert((seq![6u8] + (<Sized<Vec<Global>> as Encode>::spec_enc(a0)))[0] == 6u8);
        },
        SpecSection::Export(a0) => {
            assert(<Section as Encode>::spec_enc(v) =~= seq![7u8] + (<Sized<Vec<Export>> as Encode>::spec_enc(a0)));
            assert((seq![7u8] + (<Sized<Vec<Export>> as Encode>::spec_enc(a0)))[0] == 7u8);
        },
        SpecSection::Start(a0) => {
            assert(<Section as Encode>::spec_enc(v) =~= seq![8u8] + (<Sized<FuncIdx> as Encode>::spec_enc(a0)));
            assert((seq![8u8] + (<Sized<FuncIdx> as Encode>::spec_enc(a0)))[0] == 8u8);
        },
        SpecSection::Element(a0) => {
            assert(<Section as Encode>::spec_enc(v) =~= seq![9u8] + (<Sized<Vec<Elem>> as Encode>::spec_enc(a0)));
            assert((seq![9u8] + (<Sized<Vec<Elem>> as Encode>::spec_enc(a0)))[0] == 9u8);
        },
        SpecSection::Code(a0) => {
            assert(<Section as Encode>::spec_enc(v) =~= seq![10u8] + (<Sized<Vec<Code>> as Encode>::spec_enc(a0)));
            assert((seq![10u8] + (<Sized<Vec<Code>> as Encode>::spec_enc(a0)))[0] == 10u8);
        },
        SpecSection::Data(a0) => {
            assert(<Section as Encode>::spec_enc(v) =~= seq![11u8] + (<Sized<Vec<Data>> as Encode>::spec_enc(a0)));
            assert((seq![11u8] + (<Sized<Vec<Data>> as Encode>::spec_enc(a0)))[0] == 11u8);
        },
        SpecSection::DataCount(a0) => {
            assert(<Section as Encode>::spec_enc(v) =~= seq![12u8] + (<Sized<u32> as Encode>::spec_enc(a0)));
            assert((seq![12u8] + (<Sized<u32> as Encode>::spec_enc(a0)))[0] == 12u8);
        },
    }
}

impl Decode for Section {
    open spec fn complete() -> bool {
        <Sized<Custom> as Decode>::complete() && <Sized<Vec<FuncType>> as Decode>::complete() && <Sized<Vec<Import>> as Decode>::complete() && <Sized<Vec<TypeIdx>> as Decode>::complete() && <Sized<Vec<Table>> as Decode>::complete() && <Sized<Vec<Mem>> as Decode>::complete() && <Sized<Vec<Global>> as Decode>::complete() && <Sized<Vec<Export>> as Decode>::complete() && <Sized<FuncIdx> as Decode>::complete() && <Sized<Vec<Elem>> as Decode>::complete() && <Sized<Vec<Code>> as Decode>::complete() && <Sized<Vec<Data>> as Decode>::complete() && <Sized<u32> as Decode>::complete()
    }

    #[verifier::rlimit(100)]
    proof fn lemma_plain(s: Seq<u8>) {
        assert forall|v: SpecSection| Self::spec_enc(v).len() >= 1 by {
            lemma_section_head(v);
        }
        if Self::dec_ok(Seq::<u8>::empty()) {
            let (v, e) = choose|v: SpecSection, e: Seq<u8>|
                Self::spec_wf(v) && Seq::<u8>::empty() == Self::spec_enc(v) + e
                    && Self::tail_stop(e);
            assert(Self::spec_enc(v).len() >= 1);
            assert(false);
        }
    }

    #[verifier::rlimit(100)]
    proof fn lemma_unamb(v1: SpecSection, v2: SpecSection, e1: Seq<u8>, e2: Seq<u8>) {
        lemma_section_head(v1);
        lemma_section_head(v2);
        assert((Self::spec_enc(v1) + e1)[0] == Self::spec_enc(v1)[0]);
        assert((Self::spec_enc(v2) + e2)[0] == Self::spec_enc(v2)[0]);
        assert(section_op(v1) == section_op(v2));
        match v1 {
            SpecSection::Custom(_) => {
                lemma_section_unamb_custom(v1, v2, e1, e2);
            },
            SpecSection::Type(_) => {
                lemma_section_unamb_type(v1, v2, e1, e2);
            },
            SpecSection::Import(_) => {
                lemma_section_unamb_import(v1, v2, e1, e2);
            },
            SpecSection::Function(_) => {
                lemma_section_unamb_function(v1, v2, e1, e2);
            },
            SpecSection::Table(_) => {
                lemma_section_unamb_table(v1, v2, e1, e2);
            },
            SpecSection::Mem(_) => {
                lemma_section_unamb_mem(v1, v2, e1, e2);
            },
            SpecSection::Global(_) => {
                lemma_section_unamb_global(v1, v2, e1, e2);
            },
            SpecSection::Export(_) => {
                lemma_section_unamb_export(v1, v2, e1, e2);
            },
            SpecSection::Start(_) => {
                lemma_section_unamb_start(v1, v2, e1, e2);
            },
            SpecSection::Element(_) => {
                lemma_section_unamb_element(v1, v2, e1, e2);
            },
            SpecSection::Code(_) => {
                lemma_section_unamb_code(v1, v2, e1, e2);
            },
            SpecSection::Data(_) => {
                lemma_section_unamb_data(v1, v2, e1, e2);
            },
            SpecSection::DataCount(_) => {
                lemma_section_unamb_data_count(v1, v2, e1, e2);
            },
        }
    }

    proof fn lemma_covers(v: Self::V, e: Seq<u8>) {
        assert(Self::spec_wf(v) && Self::spec_enc(v) + e == Self::spec_enc(v) + e
            && Self::tail_stop(e));
    }

    #[verifier::rlimit(100)]
    fn decode(buffer: &[u8]) -> (r: DecodeResult<Self>) {
        if buffer.len() == 0 {
            proof {
                if Self::complete() && Self::dec_ok(buffer@) {
                    let (w, e) = choose|w: SpecSection, e: Seq<u8>|
                        Self::spec_wf(w) && buffer@ == Self::spec_enc(w) + e
                            && Self::tail_stop(e);
                    lemma_section_head(w);
                    assert(false);
                }
            }
            return Err(DecodeError::Error);
        }
        let b0 = buffer[0];
        match b0 {
            0u8 => decode_section_custom(buffer),
            1u8 => decode_section_type(buffer),
            2u8 => decode_section_import(buffer),
            3u8 => decode_section_function(buffer),
            4u8 => decode_section_table(buffer),
            5u8 => decode_section_mem(buffer),
            6u8 => decode_section_global(buffer),
            7u8 => decode_section_export(buffer),
            8u8 => decode_section_start(buffer),
            9u8 => decode_section_element(buffer),
            10u8 => decode_section_code(buffer),
            11u8 => decode_section_data(buffer),
            12u8 => decode_section_data_count(buffer),
            _ => {
                proof {
                    if Self::complete() && Self::dec_ok(buffer@) {
                        let (w, e) = choose|w: SpecSection, e: Seq<u8>|
                            Self::spec_wf(w) && buffer@ == Self::spec_enc(w) + e
                                && Self::tail_stop(e);
                        lemma_section_head(w);
                        assert((Self::spec_enc(w) + e)[0] == Self::spec_enc(w)[0]);
                        assert(buffer@[0] == section_op(w));
                        assert(false);
                    }
                }
                Err(DecodeError::Error)
            },
        }
    }
}

/// Decodes the `Custom` alternative of `Section`.
#[verifier::rlimit(100)]
fn decode_section_custom(buffer: &[u8]) -> (r: DecodeResult<Section>)
    requires
        buffer@.len() >= 1,
        buffer@[0] == 0u8,
    ensures
        r matches Ok((v, rest)) ==> <Section as Encode>::spec_wf(v.deep_view())
            && buffer@ == <Section as Encode>::spec_enc(v.deep_view()) + rest@
            && (<Section as Decode>::complete() ==> <Section as Decode>::tail_stop(
            rest@,
        )),
        <Section as Decode>::complete() ==> (r is Ok <==> <Section as Decode>::dec_ok(
            buffer@,
        )),
{
    let cur0 = buffer;
    let (lit0, cur1) = match <u8 as Decode>::decode(cur0) {
        Ok(p) => p,
        Err(_) => {
            proof {
                assert(cur0@.len() >= 1);
                assert(false);
            }
            return Err(DecodeError::Error);
        },
    };
    if lit0 != 0u8 {
        proof {
            assert(cur0@[0] == lit0);
            assert(false);
        }
        return Err(DecodeError::Error);
    }
    assert(buffer@ =~= seq![0u8] + cur1@);
    let (f1, cur2) = match <Sized<Custom> as Decode>::decode(cur1) {
        Ok(p) => p,
        Err(_) => {
            proof {
                if <Section as Decode>::complete() && <Section as Decode>::dec_ok(buffer@) {
                    lemma_err_section_custom_1_fail(buffer@, cur0@, cur1@);
                }
            }
            return Err(DecodeError::Error);
        },
    };
    assert(buffer@ =~= seq![0u8] + <Sized<Custom> as Encode>::spec_enc(f1.deep_view()) + cur2@);
    let result = Section::Custom(f1);
    proof {
        assert(<Section as Encode>::spec_enc(result.deep_view()) =~= seq![0u8] + <Sized<Custom> as Encode>::spec_enc(f1.deep_view()));
        assert(buffer@ =~= <Section as Encode>::spec_enc(result.deep_view()) + cur2@);
        if <Section as Decode>::complete() {
            assert(<Section as Decode>::dec_ok(buffer@)) by {
                assert(<Section as Encode>::spec_wf(result.deep_view()) && buffer@
                    == <Section as Encode>::spec_enc(result.deep_view()) + cur2@
                    && <Section as Decode>::tail_stop(cur2@));
            }
        }
    }
    Ok((result, cur2))
}

/// Unambiguity of the `Custom` alternative of `Section`.
#[verifier::rlimit(100)]
proof fn lemma_section_unamb_custom(v1: SpecSection, v2: SpecSection, e1: Seq<u8>, e2: Seq<u8>)
    requires
        <Section as Decode>::complete(),
        <Section as Encode>::spec_wf(v1),
        <Section as Encode>::spec_wf(v2),
        <Section as Encode>::spec_enc(v1) + e1 == <Section as Encode>::spec_enc(v2) + e2,
        <Section as Decode>::tail_stop(e1),
        <Section as Decode>::tail_stop(e2),
        section_op(v1) == 0u8,
        section_op(v2) == 0u8,
    ensures
        v1 == v2,
        e1 == e2,
{
    match v1 {
        SpecSection::Custom(a0) => {
            match v2 {
                SpecSection::Custom(b0) => {
                    assert(<Section as Encode>::spec_enc(v1) + e1 =~= seq![0u8] + (<Sized<Custom> as Encode>::spec_enc(a0) + (e1)));
                    assert(<Section as Encode>::spec_enc(v2) + e2 =~= seq![0u8] + (<Sized<Custom> as Encode>::spec_enc(b0) + (e2)));
                    lemma_concat_cancel(seq![0u8], <Sized<Custom> as Encode>::spec_enc(a0) + (e1), seq![0u8], <Sized<Custom> as Encode>::spec_enc(b0) + (e2));
                    <Sized<Custom> as Decode>::lemma_plain(e1);
                    <Sized<Custom> as Decode>::lemma_plain(e2);
                    <Sized<Custom> as Decode>::lemma_unamb(a0, b0, e1, e2);
                    assert(e1 == e2);
                    assert(a0 == b0);
                    assert(v1 == v2);
                },
                _ => {
                    assert(false);
                },
            }
        },
        _ => {
            assert(false);
        },
    }
}

/// Decodes the `Type` alternative of `Section`.
#[verifier::rlimit(100)]
fn decode_section_type(buffer: &[u8]) -> (r: DecodeResult<Section>)
    requires
        buffer@.len() >= 1,
        buffer@[0] == 1u8,
    ensures
        r matches Ok((v, rest)) ==> <Section as Encode>::spec_wf(v.deep_view())
            && buffer@ == <Section as Encode>::spec_enc(v.deep_view()) + rest@
            && (<Section as Decode>::complete() ==> <Section as Decode>::tail_stop(
            rest@,
        )),
        <Section as Decode>::complete() ==> (r is Ok <==> <Section as Decode>::dec_ok(
            buffer@,
        )),
{
    let cur0 = buffer;
    let (lit0, cur1) = match <u8 as Decode>::decode(cur0) {
        Ok(p) => p,
        Err(_) => {
            proof {
                assert(cur0@.len() >= 1);
                assert(false);
            }
            return Err(DecodeError::Error);
        },
    };
    if lit0 != 1u8 {
        proof {
            assert(cur0@[0] == lit0);
            assert(false);
        }
        return Err(DecodeError::Error);
    }
    assert(buffer@ =~= seq![1u8] + cur1@);
    let (f1, cur2) = match <Sized<Vec<FuncType>> as Decode>::decode(cur1) {
        Ok(p) => p,
        Err(_) => {
            proof {
                if <Section as Decode>::complete() && <Section as Decode>::dec_ok(buffer@) {
                    lemma_err_section_type_1_fail(buffer@, cur0@, cur1@);
                }
            }
            return Err(DecodeError::Error);
        },
    };
    assert(buffer@ =~= seq![1u8] + <Sized<Vec<FuncType>> as Encode>::spec_enc(f1.deep_view()) + cur2@);
    let result = Section::Type(f1);
    proof {
        assert(<Section as Encode>::spec_enc(result.deep_view()) =~= seq![1u8] + <Sized<Vec<FuncType>> as Encode>::spec_enc(f1.deep_view()));
        assert(buffer@ =~= <Section as Encode>::spec_enc(result.deep_view()) + cur2@);
        if <Section as Decode>::complete() {
            assert(<Section as Decode>::dec_ok(buffer@)) by {
                assert(<Section as Encode>::spec_wf(result.deep_view()) && buffer@
                    == <Section as Encode>::spec_enc(result.deep_view()) + cur2@
                    && <Section as Decode>::tail_stop(cur2@));
            }
        }
    }
    Ok((result, cur2))
}

/// Unambiguity of the `Type` alternative of `Section`.
#[verifier::rlimit(100)]
proof fn lemma_section_unamb_type(v1: SpecSection, v2: SpecSection, e1: Seq<u8>, e2: Seq<u8>)
    requires
        <Section as Decode>::complete(),
        <Section as Encode>::spec_wf(v1),
        <Section as Encode>::spec_wf(v2),
        <Section as Encode>::spec_enc(v1) + e1 == <Section as Encode>::spec_enc(v2) + e2,
        <Section as Decode>::tail_stop(e1),
        <Section as Decode>::tail_stop(e2),
        section_op(v1) == 1u8,
        section_op(v2) == 1u8,
    ensures
        v1 == v2,
        e1 == e2,
{
    match v1 {
        SpecSection::Type(a0) => {
            match v2 {
                SpecSection::Type(b0) => {
                    assert(<Section as Encode>::spec_enc(v1) + e1 =~= seq![1u8] + (<Sized<Vec<FuncType>> as Encode>::spec_enc(a0) + (e1)));
                    assert(<Section as Encode>::spec_enc(v2) + e2 =~= seq![1u8] + (<Sized<Vec<FuncType>> as Encode>::spec_enc(b0) + (e2)));
                    lemma_concat_cancel(seq![1u8], <Sized<Vec<FuncType>> as Encode>::spec_enc(a0) + (e1), seq![1u8], <Sized<Vec<FuncType>> as Encode>::spec_enc(b0) + (e2));
                    <Sized<Vec<FuncType>> as Decode>::lemma_plain(e1);
                    <Sized<Vec<FuncType>> as Decode>::lemma_plain(e2);
                    <Sized<Vec<FuncType>> as Decode>::lemma_unamb(a0, b0, e1, e2);
                    assert(e1 == e2);
                    assert(a0 == b0);
                    assert(v1 == v2);
                },
                _ => {
                    assert(false);
                },
            }
        },
        _ => {
            assert(false);
        },
    }
}

/// Decodes the `Import` alternative of `Section`.
#[verifier::rlimit(100)]
fn decode_section_import(buffer: &[u8]) -> (r: DecodeResult<Section>)
    requires
        buffer@.len() >= 1,
        buffer@[0] == 2u8,
    ensures
        r matches Ok((v, rest)) ==> <Section as Encode>::spec_wf(v.deep_view())
            && buffer@ == <Section as Encode>::spec_enc(v.deep_view()) + rest@
            && (<Section as Decode>::complete() ==> <Section as Decode>::tail_stop(
            rest@,
        )),
        <Section as Decode>::complete() ==> (r is Ok <==> <Section as Decode>::dec_ok(
            buffer@,
        )),
{
    let cur0 = buffer;
    let (lit0, cur1) = match <u8 as Decode>::decode(cur0) {
        Ok(p) => p,
        Err(_) => {
            proof {
                assert(cur0@.len() >= 1);
                assert(false);
            }
            return Err(DecodeError::Error);
        },
    };
    if lit0 != 2u8 {
        proof {
            assert(cur0@[0] == lit0);
            assert(false);
        }
        return Err(DecodeError::Error);
    }
    assert(buffer@ =~= seq![2u8] + cur1@);
    let (f1, cur2) = match <Sized<Vec<Import>> as Decode>::decode(cur1) {
        Ok(p) => p,
        Err(_) => {
            proof {
                if <Section as Decode>::complete() && <Section as Decode>::dec_ok(buffer@) {
                    lemma_err_section_import_1_fail(buffer@, cur0@, cur1@);
                }
            }
            return Err(DecodeError::Error);
        },
    };
    assert(buffer@ =~= seq![2u8] + <Sized<Vec<Import>> as Encode>::spec_enc(f1.deep_view()) + cur2@);
    let result = Section::Import(f1);
    proof {
        assert(<Section as Encode>::spec_enc(result.deep_view()) =~= seq![2u8] + <Sized<Vec<Import>> as Encode>::spec_enc(f1.deep_view()));
        assert(buffer@ =~= <Section as Encode>::spec_enc(result.deep_view()) + cur2@);
        if <Section as Decode>::complete() {
            assert(<Section as Decode>::dec_ok(buffer@)) by {
                assert(<Section as Encode>::spec_wf(result.deep_view()) && buffer@
                    == <Section as Encode>::spec_enc(result.deep_view()) + cur2@
                    && <Section as Decode>::tail_stop(cur2@));
            }
        }
    }
    Ok((result, cur2))
}

/// Unambiguity of the `Import` alternative of `Section`.
#[verifier::rlimit(100)]
proof fn lemma_section_unamb_import(v1: SpecSection, v2: SpecSection, e1: Seq<u8>, e2: Seq<u8>)
    requires
        <Section as Decode>::complete(),
        <Section as Encode>::spec_wf(v1),
        <Section as Encode>::spec_wf(v2),
        <Section as Encode>::spec_enc(v1) + e1 == <Section as Encode>::spec_enc(v2) + e2,
        <Section as Decode>::tail_stop(e1),
        <Section as Decode>::tail_stop(e2),
        section_op(v1) == 2u8,
        section_op(v2) == 2u8,
    ensures
        v1 == v2,
        e1 == e2,
{
    match v1 {
        SpecSection::Import(a0) => {
            match v2 {
                SpecSection::Import(b0) => {
                    assert(<Section as Encode>::spec_enc(v1) + e1 =~= seq![2u8] + (<Sized<Vec<Import>> as Encode>::spec_enc(a0) + (e1)));
                    assert(<Section as Encode>::spec_enc(v2) + e2 =~= seq![2u8] + (<Sized<Vec<Import>> as Encode>::spec_enc(b0) + (e2)));
                    lemma_concat_cancel(seq![2u8], <Sized<Vec<Import>> as Encode>::spec_enc(a0) + (e1), seq![2u8], <Sized<Vec<Import>> as Encode>::spec_enc(b0) + (e2));
                    <Sized<Vec<Import>> as Decode>::lemma_plain(e1);
                    <Sized<Vec<Import>> as Decode>::lemma_plain(e2);
                    <Sized<Vec<Import>> as Decode>::lemma_unamb(a0, b0, e1, e2);
                    assert(e1 == e2);
                    assert(a0 == b0);
                    assert(v1 == v2);
                },
                _ => {
                    assert(false);
                },
            }
        },
        _ => {
            assert(false);
        },
    }
}

/// Decodes the `Function` alternative of `Section`.
#[verifier::rlimit(100)]
fn decode_section_function(buffer: &[u8]) -> (r: DecodeResult<Section>)
    requires
        buffer@.len() >= 1,
        buffer@[0] == 3u8,
    ensures
        r matches Ok((v, rest)) ==> <Section as Encode>::spec_wf(v.deep_view())
            && buffer@ == <Section as Encode>::spec_enc(v.deep_view()) + rest@
            && (<Section as Decode>::complete() ==> <Section as Decode>::tail_stop(
            rest@,
        )),
        <Section as Decode>::complete() ==> (r is Ok <==> <Section as Decode>::dec_ok(
            buffer@,
        )),
{
    let cur0 = buffer;
    let (lit0, cur1) = match <u8 as Decode>::decode(cur0) {
        Ok(p) => p,
        Err(_) => {
            proof {
                assert(cur0@.len() >= 1);
                assert(false);
            }
            return Err(DecodeError::Error);
        },
    };
    if lit0 != 3u8 {
        proof {
            assert(cur0@[0] == lit0);
            assert(false);
        }
        return Err(DecodeError::Error);
    }
    assert(buffer@ =~= seq![3u8] + cur1@);
    let (f1, cur2) = match <Sized<Vec<TypeIdx>> as Decode>::decode(cur1) {
        Ok(p) => p,
        Err(_) => {
            proof {
                if <Section as Decode>::complete() && <Section as Decode>::dec_ok(buffer@) {
                    lemma_err_section_function_1_fail(buffer@, cur0@, cur1@);
                }
            }
            return Err(DecodeError::Error);
        },
    };
    assert(buffer@ =~= seq![3u8] + <Sized<Vec<TypeIdx>> as Encode>::spec_enc(f1.deep_view()) + cur2@);
    let result = Section::Function(f1);
    proof {
        assert(<Section as Encode>::spec_enc(result.deep_view()) =~= seq![3u8] + <Sized<Vec<TypeIdx>> as Encode>::spec_enc(f1.deep_view()));
        assert(buffer@ =~= <Section as Encode>::spec_enc(result.deep_view()) + cur2@);
        if <Section as Decode>::complete() {
            assert(<Section as Decode>::dec_ok(buffer@)) by {
                assert(<Section as Encode>::spec_wf(result.deep_view()) && buffer@
                    == <Section as Encode>::spec_enc(result.deep_view()) + cur2@
                    && <Section as Decode>::tail_stop(cur2@));
            }
        }
    }
    Ok((result, cur2))
}

/// Unambiguity of the `Function` alternative of `Section`.
#[verifier::rlimit(100)]
proof fn lemma_section_unamb_function(v1: SpecSection, v2: SpecSection, e1: Seq<u8>, e2: Seq<u8>)
    requires
        <Section as Decode>::complete(),
        <Section as Encode>::spec_wf(v1),
        <Section as Encode>::spec_wf(v2),
        <Section as Encode>::spec_enc(v1) + e1 == <Section as Encode>::spec_enc(v2) + e2,
        <Section as Decode>::tail_stop(e1),
        <Section as Decode>::tail_stop(e2),
        section_op(v1) == 3u8,
        section_op(v2) == 3u8,
    ensures
        v1 == v2,
        e1 == e2,
{
    match v1 {
        SpecSection::Function(a0) => {
            match v2 {
                SpecSection::Function(b0) => {
                    assert(<Section as Encode>::spec_enc(v1) + e1 =~= seq![3u8] + (<Sized<Vec<TypeIdx>> as Encode>::spec_enc(a0) + (e1)));
                    assert(<Section as Encode>::spec_enc(v2) + e2 =~= seq![3u8] + (<Sized<Vec<TypeIdx>> as Encode>::spec_enc(b0) + (e2)));
                    lemma_concat_cancel(seq![3u8], <Sized<Vec<TypeIdx>> as Encode>::spec_enc(a0) + (e1), seq![3u8], <Sized<Vec<TypeIdx>> as Encode>::spec_enc(b0) + (e2));
                    <Sized<Vec<TypeIdx>> as Decode>::lemma_plain(e1);
                    <Sized<Vec<TypeIdx>> as Decode>::lemma_plain(e2);
                    <Sized<Vec<TypeIdx>> as Decode>::lemma_unamb(a0, b0, e1, e2);
                    assert(e1 == e2);
                    assert(a0 == b0);
                    assert(v1 == v2);
                },
                _ => {
                    assert(false);
                },
            }
        },
        _ => {
            assert(false);
        },
    }
}

/// Decodes the `Table` alternative of `Section`.
#[verifier::rlimit(100)]
fn decode_section_table(buffer: &[u8]) -> (r: DecodeResult<Section>)
    requires
        buffer@.len() >= 1,
        buffer@[0] == 4u8,
    ensures
        r matches Ok((v, rest)) ==> <Section as Encode>::spec_wf(v.deep_view())
            && buffer@ == <Section as Encode>::spec_enc(v.deep_view()) + rest@
            && (<Section as Decode>::complete() ==> <Section as Decode>::tail_stop(
            rest@,
        )),
        <Section as Decode>::complete() ==> (r is Ok <==> <Section as Decode>::dec_ok(
            buffer@,
        )),
{
    let cur0 = buffer;
    let (lit0, cur1) = match <u8 as Decode>::decode(cur0) {
        Ok(p) => p,
        Err(_) => {
            proof {
                assert(cur0@.len() >= 1);
                assert(false);
            }
            return Err(DecodeError::Error);
        },
    };
    if lit0 != 4u8 {
        proof {
            assert(cur0@[0] == lit0);
            assert(false);
        }
        return Err(DecodeError::Error);
    }
    assert(buffer@ =~= seq![4u8] + cur1@);
    let (f1, cur2) = match <Sized<Vec<Table>> as Decode>::decode(cur1) {
        Ok(p) => p,
        Err(_) => {
            proof {
                if <Section as Decode>::complete() && <Section as Decode>::dec_ok(buffer@) {
                    lemma_err_section_table_1_fail(buffer@, cur0@, cur1@);
                }
            }
            return Err(DecodeError::Error);
        },
    };
    assert(buffer@ =~= seq![4u8] + <Sized<Vec<Table>> as Encode>::spec_enc(f1.deep_view()) + cur2@);
    let result = Section::Table(f1);
    proof {
        assert(<Section as Encode>::spec_enc(result.deep_view()) =~= seq![4u8] + <Sized<Vec<Table>> as Encode>::spec_enc(f1.deep_view()));
        assert(buffer@ =~= <Section as Encode>::spec_enc(result.deep_view()) + cur2@);
        if <Section as Decode>::complete() {
            assert(<Section as Decode>::dec_ok(buffer@)) by {
                assert(<Section as Encode>::spec_wf(result.deep_view()) && buffer@
                    == <Section as Encode>::spec_enc(result.deep_view()) + cur2@
                    && <Section as Decode>::tail_stop(cur2@));
            }
        }
    }
    Ok((result, cur2))
}

/// Unambiguity of the `Table` alternative of `Section`.
#[verifier::rlimit(100)]
proof fn lemma_section_unamb_table(v1: SpecSection, v2: SpecSection, e1: Seq<u8>, e2: Seq<u8>)
    requires
        <Section as Decode>::complete(),
        <Section as Encode>::spec_wf(v1),
        <Section as Encode>::spec_wf(v2),
        <Section as Encode>::spec_enc(v1) + e1 == <Section as Encode>::spec_enc(v2) + e2,
        <Section as Decode>::tail_stop(e1),
        <Section as Decode>::tail_stop(e2),
        section_op(v1) == 4u8,
        section_op(v2) == 4u8,
    ensures
        v1 == v2,
        e1 == e2,
{
    match v1 {
        SpecSection::Table(a0) => {
            match v2 {
                SpecSection::Table(b0) => {
                    assert(<Section as Encode>::spec_enc(v1) + e1 =~= seq![4u8] + (<Sized<Vec<Table>> as Encode>::spec_enc(a0) + (e1)));
                    assert(<Section as Encode>::spec_enc(v2) + e2 =~= seq![4u8] + (<Sized<Vec<Table>> as Encode>::spec_enc(b0) + (e2)));
                    lemma_concat_cancel(seq![4u8], <Sized<Vec<Table>> as Encode>::spec_enc(a0) + (e1), seq![4u8], <Sized<Vec<Table>> as Encode>::spec_enc(b0) + (e2));
                    <Sized<Vec<Table>> as Decode>::lemma_plain(e1);
                    <Sized<Vec<Table>> as Decode>::lemma_plain(e2);
                    <Sized<Vec<Table>> as Decode>::lemma_unamb(a0, b0, e1, e2);
                    assert(e1 == e2);
                    assert(a0 == b0);
                    assert(v1 == v2);
                },
                _ => {
                    assert(false);
                },
            }
        },
        _ => {
            assert(false);
        },
    }
}

/// Decodes the `Mem` alternative of `Section`.
#[verifier::rlimit(100)]
fn decode_section_mem(buffer: &[u8]) -> (r: DecodeResult<Section>)
    requires
        buffer@.len() >= 1,
        buffer@[0] == 5u8,
    ensures
        r matches Ok((v, rest)) ==> <Section as Encode>::spec_wf(v.deep_view())
            && buffer@ == <Section as Encode>::spec_enc(v.deep_view()) + rest@
            && (<Section as Decode>::complete() ==> <Section as Decode>::tail_stop(
            rest@,
        )),
        <Section as Decode>::complete() ==> (r is Ok <==> <Section as Decode>::dec_ok(
            buffer@,
        )),
{
    let cur0 = buffer;
    let (lit0, cur1) = match <u8 as Decode>::decode(cur0) {
        Ok(p) => p,
        Err(_) => {
            proof {
                assert(cur0@.len() >= 1);
                assert(false);
            }
            return Err(DecodeError::Error);
        },
    };
    if lit0 != 5u8 {
        proof {
            assert(cur0@[0] == lit0);
            assert(false);
        }
        return Err(DecodeError::Error);
    }
    assert(buffer@ =~= seq![5u8] + cur1@);
    let (f1, cur2) = match <Sized<Vec<Mem>> as Decode>::decode(cur1) {
        Ok(p) => p,
        Err(_) => {
            proof {
                if <Section as Decode>::complete() && <Section as Decode>::dec_ok(buffer@) {
                    lemma_err_section_mem_1_fail(buffer@, cur0@, cur1@);
                }
            }
            return Err(DecodeError::Error);
        },
    };
    assert(buffer@ =~= seq![5u8] + <Sized<Vec<Mem>> as Encode>::spec_enc(f1.deep_view()) + cur2@);
    let result = Section::Mem(f1);
    proof {
        assert(<Section as Encode>::spec_enc(result.deep_view()) =~= seq![5u8] + <Sized<Vec<Mem>> as Encode>::spec_enc(f1.deep_view()));
        assert(buffer@ =~= <Section as Encode>::spec_enc(result.deep_view()) + cur2@);
        if <Section as Decode>::complete() {
            assert(<Section as Decode>::dec_ok(buffer@)) by {
                assert(<Section as Encode>::spec_wf(result.deep_view()) && buffer@
                    == <Section as Encode>::spec_enc(result.deep_view()) + cur2@
                    && <Section as Decode>::tail_stop(cur2@));
            }
        }
    }
    Ok((result, cur2))
}

/// Unambiguity of the `Mem` alternative of `Section`.
#[verifier::rlimit(100)]
proof fn lemma_section_unamb_mem(v1: SpecSection, v2: SpecSection, e1: Seq<u8>, e2: Seq<u8>)
    requires
        <Section as Decode>::complete(),
        <Section as Encode>::spec_wf(v1),
        <Section as Encode>::spec_wf(v2),
        <Section as Encode>::spec_enc(v1) + e1 == <Section as Encode>::spec_enc(v2) + e2,
        <Section as Decode>::tail_stop(e1),
        <Section as Decode>::tail_stop(e2),
        section_op(v1) == 5u8,
        section_op(v2) == 5u8,
    ensures
        v1 == v2,
        e1 == e2,
{
    match v1 {
        SpecSection::Mem(a0) => {
            match v2 {
                SpecSection::Mem(b0) => {
                    assert(<Section as Encode>::spec_enc(v1) + e1 =~= seq![5u8] + (<Sized<Vec<Mem>> as Encode>::spec_enc(a0) + (e1)));
                    assert(<Section as Encode>::spec_enc(v2) + e2 =~= seq![5u8] + (<Sized<Vec<Mem>> as Encode>::spec_enc(b0) + (e2)));
                    lemma_concat_cancel(seq![5u8], <Sized<Vec<Mem>> as Encode>::spec_enc(a0) + (e1), seq![5u8], <Sized<Vec<Mem>> as Encode>::spec_enc(b0) + (e2));
                    <Sized<Vec<Mem>> as Decode>::lemma_plain(e1);
                    <Sized<Vec<Mem>> as Decode>::lemma_plain(e2);
                    <Sized<Vec<Mem>> as Decode>::lemma_unamb(a0, b0, e1, e2);
                    assert(e1 == e2);
                    assert(a0 == b0);
                    assert(v1 == v2);
                },
                _ => {
                    assert(false);
                },
            }
        },
        _ => {
            assert(false);
        },
    }
}

/// Decodes the `Global` alternative of `Section`.
#[verifier::rlimit(100)]
fn decode_section_global(buffer: &[u8]) -> (r: DecodeResult<Section>)
    requires
        buffer@.len() >= 1,
        buffer@[0] == 6u8,
    ensures
        r matches Ok((v, rest)) ==> <Section as Encode>::spec_wf(v.deep_view())
            && buffer@ == <Section as Encode>::spec_enc(v.deep_view()) + rest@
            && (<Section as Decode>::complete() ==> <Section as Decode>::tail_stop(
            rest@,
        )),
        <Section as Decode>::complete() ==> (r is Ok <==> <Section as Decode>::dec_ok(
            buffer@,
        )),
{
    let cur0 = buffer;
    let (lit0, cur1) = match <u8 as Decode>::decode(cur0) {
        Ok(p) => p,
        Err(_) => {
            proof {
                assert(cur0@.len() >= 1);
                assert(false);
            }
            return Err(DecodeError::Error);
        },
    };
    if lit0 != 6u8 {
        proof {
            assert(cur0@[0] == lit0);
            assert(false);
        }
        return Err(DecodeError::Error);
    }
    assert(buffer@ =~= seq![6u8] + cur1@);
    let (f1, cur2) = match <Sized<Vec<Global>> as Decode>::decode(cur1) {
        Ok(p) => p,
        Err(_) => {
            proof {
                if <Section as Decode>::complete() && <Section as Decode>::dec_ok(buffer@) {
                    lemma_err_section_global_1_fail(buffer@, cur0@, cur1@);
                }
            }
            return Err(DecodeError::Error);
        },
    };
    assert(buffer@ =~= seq![6u8] + <Sized<Vec<Global>> as Encode>::spec_enc(f1.deep_view()) + cur2@);
    let result = Section::Global(f1);
    proof {
        assert(<Section as Encode>::spec_enc(result.deep_view()) =~= seq![6u8] + <Sized<Vec<Global>> as Encode>::spec_enc(f1.deep_view()));
        assert(buffer@ =~= <Section as Encode>::spec_enc(result.deep_view()) + cur2@);
        if <Section as Decode>::complete() {
            assert(<Section as Decode>::dec_ok(buffer@)) by {
                assert(<Section as Encode>::spec_wf(result.deep_view()) && buffer@
                    == <Section as Encode>::spec_enc(result.deep_view()) + cur2@
                    && <Section as Decode>::tail_stop(cur2@));
            }
        }
    }
    Ok((result, cur2))
}

/// Unambiguity of the `Global` alternative of `Section`.
#[verifier::rlimit(100)]
proof fn lemma_section_unamb_global(v1: SpecSection, v2: SpecSection, e1: Seq<u8>, e2: Seq<u8>)
    requires
        <Section as Decode>::complete(),
        <Section as Encode>::spec_wf(v1),
        <Section as Encode>::spec_wf(v2),
        <Section as Encode>::spec_enc(v1) + e1 == <Section as Encode>::spec_enc(v2) + e2,
        <Section as Decode>::tail_stop(e1),
        <Section as Decode>::tail_stop(e2),
        section_op(v1) == 6u8,
        section_op(v2) == 6u8,
    ensures
        v1 == v2,
        e1 == e2,
{
    match v1 {
        SpecSection::Global(a0) => {
            match v2 {
                SpecSection::Global(b0) => {
                    assert(<Section as Encode>::spec_enc(v1) + e1 =~= seq![6u8] + (<Sized<Vec<Global>> as Encode>::spec_enc(a0) + (e1)));
                    assert(<Section as Encode>::spec_enc(v2) + e2 =~= seq![6u8] + (<Sized<Vec<Global>> as Encode>::spec_enc(b0) + (e2)));
                    lemma_concat_cancel(seq![6u8], <Sized<Vec<Global>> as Encode>::spec_enc(a0) + (e1), seq![6u8], <Sized<Vec<Global>> as Encode>::spec_enc(b0) + (e2));
                    <Sized<Vec<Global>> as Decode>::lemma_plain(e1);
                    <Sized<Vec<Global>> as Decode>::lemma_plain(e2);
                    <Sized<Vec<Global>> as Decode>::lemma_unamb(a0, b0, e1, e2);
                    assert(e1 == e2);
                    assert(a0 == b0);
                    assert(v1 == v2);
                },
                _ => {
                    assert(false);
                },
            }
        },
        _ => {
            assert(false);
        },
    }
}

/// Decodes the `Export` alternative of `Section`.
#[verifier::rlimit(100)]
fn decode_section_export(buffer: &[u8]) -> (r: DecodeResult<Section>)
    requires
        buffer@.len() >= 1,
        buffer@[0] == 7u8,
    ensures
        r matches Ok((v, rest)) ==> <Section as Encode>::spec_wf(v.deep_view())
            && buffer@ == <Section as Encode>::spec_enc(v.deep_view()) + rest@
            && (<Section as Decode>::complete() ==> <Section as Decode>::tail_stop(
            rest@,
        )),
        <Section as Decode>::complete() ==> (r is Ok <==> <Section as Decode>::dec_ok(
            buffer@,
        )),
{
    let cur0 = buffer;
    let (lit0, cur1) = match <u8 as Decode>::decode(cur0) {
        Ok(p) => p,
        Err(_) => {
            proof {
                assert(cur0@.len() >= 1);
                assert(false);
            }
            return Err(DecodeError::Error);
        },
    };
    if lit0 != 7u8 {
        proof {
            assert(cur0@[0] == lit0);
            assert(false);
        }
        return Err(DecodeError::Error);
    }
    assert(buffer@ =~= seq![7u8] + cur1@);
    let (f1, cur2) = match <Sized<Vec<Export>> as Decode>::decode(cur1) {
        Ok(p) => p,
        Err(_) => {
            proof {
                if <Section as Decode>::complete() && <Section as Decode>::dec_ok(buffer@) {
                    lemma_err_section_export_1_fail(buffer@, cur0@, cur1@);
                }
            }
            return Err(DecodeError::Error);
        },
    };
    assert(buffer@ =~= seq![7u8] + <Sized<Vec<Export>> as Encode>::spec_enc(f1.deep_view()) + cur2@);
    let result = Section::Export(f1);
    proof {
        assert(<Section as Encode>::spec_enc(result.deep_view()) =~= seq![7u8] + <Sized<Vec<Export>> as Encode>::spec_enc(f1.deep_view()));
        assert(buffer@ =~= <Section as Encode>::spec_enc(result.deep_view()) + cur2@);
        if <Section as Decode>::complete() {
            assert(<Section as Decode>::dec_ok(buffer@)) by {
                assert(<Section as Encode>::spec_wf(result.deep_view()) && buffer@
                    == <Section as Encode>::spec_enc(result.deep_view()) + cur2@
                    && <Section as Decode>::tail_stop(cur2@));
            }
        }
    }
    Ok((result, cur2))
}

/// Unambiguity of the `Export` alternative of `Section`.
#[verifier::rlimit(100)]
proof fn lemma_section_unamb_export(v1: SpecSection, v2: SpecSection, e1: Seq<u8>, e2: Seq<u8>)
    requires
        <Section as Decode>::complete(),
        <Section as Encode>::spec_wf(v1),
        <Section as Encode>::spec_wf(v2),
        <Section as Encode>::spec_enc(v1) + e1 == <Section as Encode>::spec_enc(v2) + e2,
        <Section as Decode>::tail_stop(e1),
        <Section as Decode>::tail_stop(e2),
        section_op(v1) == 7u8,
        section_op(v2) == 7u8,
    ensures
        v1 == v2,
        e1 == e2,
{
    match v1 {
        SpecSection::Export(a0) => {
            match v2 {
                SpecSection::Export(b0) => {
                    assert(<Section as Encode>::spec_enc(v1) + e1 =~= seq![7u8] + (<Sized<Vec<Export>> as Encode>::spec_enc(a0) + (e1)));
                    assert(<Section as Encode>::spec_enc(v2) + e2 =~= seq![7u8] + (<Sized<Vec<Export>> as Encode>::spec_enc(b0) + (e2)));
                    lemma_concat_cancel(seq![7u8], <Sized<Vec<Export>> as Encode>::spec_enc(a0) + (e1), seq![7u8], <Sized<Vec<Export>> as Encode>::spec_enc(b0) + (e2));
                    <Sized<Vec<Export>> as Decode>::lemma_plain(e1);
                    <Sized<Vec<Export>> as Decode>::lemma_plain(e2);
                    <Sized<Vec<Export>> as Decode>::lemma_unamb(a0, b0, e1, e2);
                    assert(e1 == e2);
                    assert(a0 == b0);
                    assert(v1 == v2);
                },
                _ => {
                    assert(false);
                },
            }
        },
        _ => {
            assert(false);
        },
    }
}

/// Decodes the `Start` alternative of `Section`.
#[verifier::rlimit(100)]
fn decode_section_start(buffer: &[u8]) -> (r: DecodeResult<Section>)
    requires
        buffer@.len() >= 1,
        buffer@[0] == 8u8,
    ensures
        r matches Ok((v, rest)) ==> <Section as Encode>::spec_wf(v.deep_view())
            && buffer@ == <Section as Encode>::spec_enc(v.deep_view()) + rest@
            && (<Section as Decode>::complete() ==> <Section as Decode>::tail_stop(
            rest@,
        )),
        <Section as Decode>::complete() ==> (r is Ok <==> <Section as Decode>::dec_ok(
            buffer@,
        )),
{
    let cur0 = buffer;
    let (lit0, cur1) = match <u8 as Decode>::decode(cur0) {
        Ok(p) => p,
        Err(_) => {
            proof {
                assert(cur0@.len() >= 1);
                assert(false);
            }
            return Err(DecodeError::Error);
        },
    };
    if lit0 != 8u8 {
        proof {
            assert(cur0@[0] == lit0);
            assert(false);
        }
        return Err(DecodeError::Error);
    }
    assert(buffer@ =~= seq![8u8] + cur1@);
    let (f1, cur2) = match <Sized<FuncIdx> as Decode>::decode(cur1) {
        Ok(p) => p,
        Err(_) => {
            proof {
                if <Section as Decode>::complete() && <Section as Decode>::dec_ok(buffer@) {
                    lemma_err_section_start_1_fail(buffer@, cur0@, cur1@);
                }
            }
            return Err(DecodeError::Error);
        },
    };
    assert(buffer@ =~= seq![8u8] + <Sized<FuncIdx> as Encode>::spec_enc(f1.deep_view()) + cur2@);
    let result = Section::Start(f1);
    proof {
        assert(<Section as Encode>::spec_enc(result.deep_view()) =~= seq![8u8] + <Sized<FuncIdx> as Encode>::spec_enc(f1.deep_view()));
        assert(buffer@ =~= <Section as Encode>::spec_enc(result.deep_view()) + cur2@);
        if <Section as Decode>::complete() {
            assert(<Section as Decode>::dec_ok(buffer@)) by {
                assert(<Section as Encode>::spec_wf(result.deep_view()) && buffer@
                    == <Section as Encode>::spec_enc(result.deep_view()) + cur2@
                    && <Section as Decode>::tail_stop(cur2@));
            }
        }
    }
    Ok((result, cur2))
}

/// Unambiguity of the `Start` alternative of `Section`.
#[verifier::rlimit(100)]
proof fn lemma_section_unamb_start(v1: SpecSection, v2: SpecSection, e1: Seq<u8>, e2: Seq<u8>)
    requires
        <Section as Decode>::complete(),
        <Section as Encode>::spec_wf(v1),
        <Section as Encode>::spec_wf(v2),
        <Section as Encode>::spec_enc(v1) + e1 == <Section as Encode>::spec_enc(v2) + e2,
        <Section as Decode>::tail_stop(e1),
        <Section as Decode>::tail_stop(e2),
        section_op(v1) == 8u8,
        section_op(v2) == 8u8,
    ensures
        v1 == v2,
        e1 == e2,
{
    match v1 {
        SpecSection::Start(a0) => {
            match v2 {
                SpecSection::Start(b0) => {
                    assert(<Section as Encode>::spec_enc(v1) + e1 =~= seq![8u8] + (<Sized<FuncIdx> as Encode>::spec_enc(a0) + (e1)));
                    assert(<Section as Encode>::spec_enc(v2) + e2 =~= seq![8u8] + (<Sized<FuncIdx> as Encode>::spec_enc(b0) + (e2)));
                    lemma_concat_cancel(seq![8u8], <Sized<FuncIdx> as Encode>::spec_enc(a0) + (e1), seq![8u8], <Sized<FuncIdx> as Encode>::spec_enc(b0) + (e2));
                    <Sized<FuncIdx> as Decode>::lemma_plain(e1);
                    <Sized<FuncIdx> as Decode>::lemma_plain(e2);
                    <Sized<FuncIdx> as Decode>::lemma_unamb(a0, b0, e1, e2);
                    assert(e1 == e2);
                    assert(a0 == b0);
                    assert(v1 == v2);
                },
                _ => {
                    assert(false);
                },
            }
        },
        _ => {
            assert(false);
        },
    }
}

/// Decodes the `Element` alternative of `Section`.
#[verifier::rlimit(100)]
fn decode_section_element(buffer: &[u8]) -> (r: DecodeResult<Section>)
    requires
        buffer@.len() >= 1,
        buffer@[0] == 9u8,
    ensures
        r matches Ok((v, rest)) ==> <Section as Encode>::spec_wf(v.deep_view())
            && buffer@ == <Section as Encode>::spec_enc(v.deep_view()) + rest@
            && (<Section as Decode>::complete() ==> <Section as Decode>::tail_stop(
            rest@,
        )),
        <Section as Decode>::complete() ==> (r is Ok <==> <Section as Decode>::dec_ok(
            buffer@,
        )),
{
    let cur0 = buffer;
    let (lit0, cur1) = match <u8 as Decode>::decode(cur0) {
        Ok(p) => p,
        Err(_) => {
            proof {
                assert(cur0@.len() >= 1);
                assert(false);
            }
            return Err(DecodeError::Error);
        },
    };
    if lit0 != 9u8 {
        proof {
            assert(cur0@[0] == lit0);
            assert(false);
        }
        return Err(DecodeError::Error);
    }
    assert(buffer@ =~= seq![9u8] + cur1@);
    let (f1, cur2) = match <Sized<Vec<Elem>> as Decode>::decode(cur1) {
        Ok(p) => p,
        Err(_) => {
            proof {
                if <Section as Decode>::complete() && <Section as Decode>::dec_ok(buffer@) {
                    lemma_err_section_element_1_fail(buffer@, cur0@, cur1@);
                }
            }
            return Err(DecodeError::Error);
        },
    };
    assert(buffer@ =~= seq![9u8] + <Sized<Vec<Elem>> as Encode>::spec_enc(f1.deep_view()) + cur2@);
    let result = Section::Element(f1);
    proof {
        assert(<Section as Encode>::spec_enc(result.deep_view()) =~= seq![9u8] + <Sized<Vec<Elem>> as Encode>::spec_enc(f1.deep_view()));
        assert(buffer@ =~= <Section as Encode>::spec_enc(result.deep_view()) + cur2@);
        if <Section as Decode>::complete() {
            assert(<Section as Decode>::dec_ok(buffer@)) by {
                assert(<Section as Encode>::spec_wf(result.deep_view()) && buffer@
                    == <Section as Encode>::spec_enc(result.deep_view()) + cur2@
                    && <Section as Decode>::tail_stop(cur2@));
            }
        }
    }
    Ok((result, cur2))
}

/// Unambiguity of the `Element` alternative of `Section`.
#[verifier::rlimit(100)]
proof fn lemma_section_unamb_element(v1: SpecSection, v2: SpecSection, e1: Seq<u8>, e2: Seq<u8>)
    requires
        <Section as Decode>::complete(),
        <Section as Encode>::spec_wf(v1),
        <Section as Encode>::spec_wf(v2),
        <Section as Encode>::spec_enc(v1) + e1 == <Section as Encode>::spec_enc(v2) + e2,
        <Section as Decode>::tail_stop(e1),
        <Section as Decode>::tail_stop(e2),
        section_op(v1) == 9u8,
        section_op(v2) == 9u8,
    ensures
        v1 == v2,
        e1 == e2,
{
    match v1 {
        SpecSection::Element(a0) => {
            match v2 {
                SpecSection::Element(b0) => {
                    assert(<Section as Encode>::spec_enc(v1) + e1 =~= seq![9u8] + (<Sized<Vec<Elem>> as Encode>::spec_enc(a0) + (e1)));
                    assert(<Section as Encode>::spec_enc(v2) + e2 =~= seq![9u8] + (<Sized<Vec<Elem>> as Encode>::spec_enc(b0) + (e2)));
                    lemma_concat_cancel(seq![9u8], <Sized<Vec<Elem>> as Encode>::spec_enc(a0) + (e1), seq![9u8], <Sized<Vec<Elem>> as Encode>::spec_enc(b0) + (e2));
                    <Sized<Vec<Elem>> as Decode>::lemma_plain(e1);
                    <Sized<Vec<Elem>> as Decode>::lemma_plain(e2);
                    <Sized<Vec<Elem>> as Decode>::lemma_unamb(a0, b0, e1, e2);
                    assert(e1 == e2);
                    assert(a0 == b0);
                    assert(v1 == v2);
                },
                _ => {
                    assert(false);
                },
            }
        },
        _ => {
            assert(false);
        },
    }
}

/// Decodes the `Code` alternative of `Section`.
#[verifier::rlimit(100)]
fn decode_section_code(buffer: &[u8]) -> (r: DecodeResult<Section>)
    requires
        buffer@.len() >= 1,
        buffer@[0] == 10u8,
    ensures
        r matches Ok((v, rest)) ==> <Section as Encode>::spec_wf(v.deep_view())
            && buffer@ == <Section as Encode>::spec_enc(v.deep_view()) + rest@
            && (<Section as Decode>::complete() ==> <Section as Decode>::tail_stop(
            rest@,
        )),
        <Section as Decode>::complete() ==> (r is Ok <==> <Section as Decode>::dec_ok(
            buffer@,
        )),
{
    let cur0 = buffer;
    let (lit0, cur1) = match <u8 as Decode>::decode(cur0) {
        Ok(p) => p,
        Err(_) => {
            proof {
                assert(cur0@.len() >= 1);
                assert(false);
            }
            return Err(DecodeError::Error);
        },
    };
    if lit0 != 10u8 {
        proof {
            assert(cur0@[0] == lit0);
            assert(false);
        }
        return Err(DecodeError::Error);
    }
    assert(buffer@ =~= seq![10u8] + cur1@);
    let (f1, cur2) = match <Sized<Vec<Code>> as Decode>::decode(cur1) {
        Ok(p) => p,
        Err(_) => {
            proof {
                if <Section as Decode>::complete() && <Section as Decode>::dec_ok(buffer@) {
                    lemma_err_section_code_1_fail(buffer@, cur0@, cur1@);
                }
            }
            return Err(DecodeError::Error);
        },
    };
    assert(buffer@ =~= seq![10u8] + <Sized<Vec<Code>> as Encode>::spec_enc(f1.deep_view()) + cur2@);
    let result = Section::Code(f1);
    proof {
        assert(<Section as Encode>::spec_enc(result.deep_view()) =~= seq![10u8] + <Sized<Vec<Code>> as Encode>::spec_enc(f1.deep_view()));
        assert(buffer@ =~= <Section as Encode>::spec_enc(result.deep_view()) + cur2@);
        if <Section as Decode>::complete() {
            assert(<Section as Decode>::dec_ok(buffer@)) by {
                assert(<Section as Encode>::spec_wf(result.deep_view()) && buffer@
                    == <Section as Encode>::spec_enc(result.deep_view()) + cur2@
                    && <Section as Decode>::tail_stop(cur2@));
            }
        }
    }
    Ok((result, cur2))
}

/// Unambiguity of the `Code` alternative of `Section`.
#[verifier::rlimit(100)]
proof fn lemma_section_unamb_code(v1: SpecSection, v2: SpecSection, e1: Seq<u8>, e2: Seq<u8>)
    requires
        <Section as Decode>::complete(),
        <Section as Encode>::spec_wf(v1),
        <Section as Encode>::spec_wf(v2),
        <Section as Encode>::spec_enc(v1) + e1 == <Section as Encode>::spec_enc(v2) + e2,
        <Section as Decode>::tail_stop(e1),
        <Section as Decode>::tail_stop(e2),
        section_op(v1) == 10u8,
        section_op(v2) == 10u8,
    ensures
        v1 == v2,
        e1 == e2,
{
    match v1 {
        SpecSection::Code(a0) => {
            match v2 {
                SpecSection::Code(b0) => {
                    assert(<Section as Encode>::spec_enc(v1) + e1 =~= seq![10u8] + (<Sized<Vec<Code>> as Encode>::spec_enc(a0) + (e1)));
                    assert(<Section as Encode>::spec_enc(v2) + e2 =~= seq![10u8] + (<Sized<Vec<Code>> as Encode>::spec_enc(b0) + (e2)));
                    lemma_concat_cancel(seq![10u8], <Sized<Vec<Code>> as Encode>::spec_enc(a0) + (e1), seq![10u8], <Sized<Vec<Code>> as Encode>::spec_enc(b0) + (e2));
                    <Sized<Vec<Code>> as Decode>::lemma_plain(e1);
                    <Sized<Vec<Code>> as Decode>::lemma_plain(e2);
                    <Sized<Vec<Code>> as Decode>::lemma_unamb(a0, b0, e1, e2);
                    assert(e1 == e2);
                    assert(a0 == b0);
                    assert(v1 == v2);
                },
                _ => {
                    assert(false);
                },
            }
        },
        _ => {
            assert(false);
        },
    }
}

/// Decodes the `Data` alternative of `Section`.
#[verifier::rlimit(100)]
fn decode_section_data(buffer: &[u8]) -> (r: DecodeResult<Section>)
    requires
        buffer@.len() >= 1,
        buffer@[0] == 11u8,
    ensures
        r matches Ok((v, rest)) ==> <Section as Encode>::spec_wf(v.deep_view())
            && buffer@ == <Section as Encode>::spec_enc(v.deep_view()) + rest@
            && (<Section as Decode>::complete() ==> <Section as Decode>::tail_stop(
            rest@,
        )),
        <Section as Decode>::complete() ==> (r is Ok <==> <Section as Decode>::dec_ok(
            buffer@,
        )),
{
    let cur0 = buffer;
    let (lit0, cur1) = match <u8 as Decode>::decode(cur0) {
        Ok(p) => p,
        Err(_) => {
            proof {
                assert(cur0@.len() >= 1);
                assert(false);
            }
            return Err(DecodeError::Error);
        },
    };
    if lit0 != 11u8 {
        proof {
            assert(cur0@[0] == lit0);
            assert(false);
        }
        return Err(DecodeError::Error);
    }
    assert(buffer@ =~= seq![11u8] + cur1@);
    let (f1, cur2) = match <Sized<Vec<Data>> as Decode>::decode(cur1) {
        Ok(p) => p,
        Err(_) => {
            proof {
                if <Section as Decode>::complete() && <Section as Decode>::dec_ok(buffer@) {
                    lemma_err_section_data_1_fail(buffer@, cur0@, cur1@);
                }
            }
            return Err(DecodeError::Error);
        },
    };
    assert(buffer@ =~= seq![11u8] + <Sized<Vec<Data>> as Encode>::spec_enc(f1.deep_view()) + cur2@);
    let result = Section::Data(f1);
    proof {
        assert(<Section as Encode>::spec_enc(result.deep_view()) =~= seq![11u8] + <Sized<Vec<Data>> as Encode>::spec_enc(f1.deep_view()));
        assert(buffer@ =~= <Section as Encode>::spec_enc(result.deep_view()) + cur2@);
        if <Section as Decode>::complete() {
            assert(<Section as Decode>::dec_ok(buffer@)) by {
                assert(<Section as Encode>::spec_wf(result.deep_view()) && buffer@
                    == <Section as Encode>::spec_enc(result.deep_view()) + cur2@
                    && <Section as Decode>::tail_stop(cur2@));
            }
        }
    }
    Ok((result, cur2))
}

/// Unambiguity of the `Data` alternative of `Section`.
#[verifier::rlimit(100)]
proof fn lemma_section_unamb_data(v1: SpecSection, v2: SpecSection, e1: Seq<u8>, e2: Seq<u8>)
    requires
        <Section as Decode>::complete(),
        <Section as Encode>::spec_wf(v1),
        <Section as Encode>::spec_wf(v2),
        <Section as Encode>::spec_enc(v1) + e1 == <Section as Encode>::spec_enc(v2) + e2,
        <Section as Decode>::tail_stop(e1),
        <Section as Decode>::tail_stop(e2),
        section_op(v1) == 11u8,
        section_op(v2) == 11u8,
    ensures
        v1 == v2,
        e1 == e2,
{
    match v1 {
        SpecSection::Data(a0) => {
            match v2 {
                SpecSection::Data(b0) => {
                    assert(<Section as Encode>::spec_enc(v1) + e1 =~= seq![11u8] + (<Sized<Vec<Data>> as Encode>::spec_enc(a0) + (e1)));
                    assert(<Section as Encode>::spec_enc(v2) + e2 =~= seq![11u8] + (<Sized<Vec<Data>> as Encode>::spec_enc(b0) + (e2)));
                    lemma_concat_cancel(seq![11u8], <Sized<Vec<Data>> as Encode>::spec_enc(a0) + (e1), seq![11u8], <Sized<Vec<Data>> as Encode>::spec_enc(b0) + (e2));
                    <Sized<Vec<Data>> as Decode>::lemma_plain(e1);
                    <Sized<Vec<Data>> as Decode>::lemma_plain(e2);
                    <Sized<Vec<Data>> as Decode>::lemma_unamb(a0, b0, e1, e2);
                    assert(e1 == e2);
                    assert(a0 == b0);
                    assert(v1 == v2);
                },
                _ => {
                    assert(false);
                },
            }
        },
        _ => {
            assert(false);
        },
    }
}

/// Decodes the `DataCount` alternative of `Section`.
#[verifier::rlimit(100)]
fn decode_section_data_count(buffer: &[u8]) -> (r: DecodeResult<Section>)
    requires
        buffer@.len() >= 1,
        buffer@[0] == 12u8,
    ensures
        r matches Ok((v, rest)) ==> <Section as Encode>::spec_wf(v.deep_view())
            && buffer@ == <Section as Encode>::spec_enc(v.deep_view()) + rest@
            && (<Section as Decode>::complete() ==> <Section as Decode>::tail_stop(
            rest@,
        )),
        <Section as Decode>::complete() ==> (r is Ok <==> <Section as Decode>::dec_ok(
            buffer@,
        )),
{
    let cur0 = buffer;
    let (lit0, cur1) = match <u8 as Decode>::decode(cur0) {
        Ok(p) => p,
        Err(_) => {
            proof {
                assert(cur0@.len() >= 1);
                assert(false);
            }
            return Err(DecodeError::Error);
        },
    };
    if lit0 != 12u8 {
        proof {
            assert(cur0@[0] == lit0);
            assert(false);
        }
        return Err(DecodeError::Error);
    }
    assert(buffer@ =~= seq![12u8] + cur1@);
    let (f1, cur2) = match <Sized<u32> as Decode>::decode(cur1) {
        Ok(p) => p,
        Err(_) => {
            proof {
                if <Section as Decode>::complete() && <Section as Decode>::dec_ok(buffer@) {
                    lemma_err_section_data_count_1_fail(buffer@, cur0@, cur1@);
                }
            }
            return Err(DecodeError::Error);
        },
    };
    assert(buffer@ =~= seq![12u8] + <Sized<u32> as Encode>::spec_enc(f1.deep_view()) + cur2@);
    let result = Section::DataCount(f1);
    proof {
        assert(<Section as Encode>::spec_enc(result.deep_view()) =~= seq![12u8] + <Sized<u32> as Encode>::spec_enc(f1.deep_view()));
        assert(buffer@ =~= <Section as Encode>::spec_enc(result.deep_view()) + cur2@);
        if <Section as Decode>::complete() {
            assert(<Section as Decode>::dec_ok(buffer@)) by {
                assert(<Section as Encode>::spec_wf(result.deep_view()) && buffer@
                    == <Section as Encode>::spec_enc(result.deep_view()) + cur2@
                    && <Section as Decode>::tail_stop(cur2@));
            }
        }
    }
    Ok((result, cur2))
}

/// Unambiguity of the `DataCount` alternative of `Section`.
#[verifier::rlimit(100)]
proof fn lemma_section_unamb_data_count(v1: SpecSection, v2: SpecSection, e1: Seq<u8>, e2: Seq<u8>)
    requires
        <Section as Decode>::complete(),
        <Section as Encode>::spec_wf(v1),
        <Section as Encode>::spec_wf(v2),
        <Section as Encode>::spec_enc(v1) + e1 == <Section as Encode>::spec_enc(v2) + e2,
        <Section as Decode>::tail_stop(e1),
        <Section as Decode>::tail_stop(e2),
        section_op(v1) == 12u8,
        section_op(v2) == 12u8,
    ensures
        v1 == v2,
        e1 == e2,
{
    match v1 {
        SpecSection::DataCount(a0) => {
            match v2 {
                SpecSection::DataCount(b0) => {
                    assert(<Section as Encode>::spec_enc(v1) + e1 =~= seq![12u8] + (<Sized<u32> as Encode>::spec_enc(a0) + (e1)));
                    assert(<Section as Encode>::spec_enc(v2) + e2 =~= seq![12u8] + (<Sized<u32> as Encode>::spec_enc(b0) + (e2)));
                    lemma_concat_cancel(seq![12u8], <Sized<u32> as Encode>::spec_enc(a0) + (e1), seq![12u8], <Sized<u32> as Encode>::spec_enc(b0) + (e2));
                    <Sized<u32> as Decode>::lemma_plain(e1);
                    <Sized<u32> as Decode>::lemma_plain(e2);
                    <Sized<u32> as Decode>::lemma_unamb(a0, b0, e1, e2);
                    assert(e1 == e2);
                    assert(a0 == b0);
                    assert(v1 == v2);
                },
                _ => {
                    assert(false);
                },
            }
        },
        _ => {
            assert(false);
        },
    }
}

/// What a claimed parse of `Section` says about the bytes at this point.
#[verifier::rlimit(100)]
proof fn lemma_err_section_custom_1_fail(buffer: Seq<u8>, c0: Seq<u8>, c1: Seq<u8>)
    requires
        <Section as Decode>::complete(),
        <Section as Decode>::dec_ok(buffer),
        c0 == buffer,
        c0 == seq![0u8] + c1,
    ensures
        <Sized<Custom> as Decode>::dec_ok(c1),
{
    let (w, e) = choose|w: SpecSection, e: Seq<u8>|
        <Section as Encode>::spec_wf(w) && buffer == <Section as Encode>::spec_enc(w)
            + e && <Section as Decode>::tail_stop(e);
    lemma_section_head(w);
    assert((<Section as Encode>::spec_enc(w) + e)[0]
        == <Section as Encode>::spec_enc(w)[0]);
    assert(buffer[0] == section_op(w));
    assert(section_op(w) == 0u8);
    match w {
        SpecSection::Custom(wv0) => {
            assert(buffer =~= seq![0u8] + (<Sized<Custom> as Encode>::spec_enc(wv0) + (e)));
            lemma_concat_cancel(seq![0u8], c1, seq![0u8], <Sized<Custom> as Encode>::spec_enc(wv0) + (e));
            assert(c1 == <Sized<Custom> as Encode>::spec_enc(wv0) + (e));
            assert(c1 == <Sized<Custom> as Encode>::spec_enc(wv0) + (e));
            <Sized<Custom> as Decode>::lemma_plain(e);
            <Sized<Custom> as Decode>::lemma_covers(wv0, e);
            assert(<Sized<Custom> as Decode>::dec_ok(c1));
        },
        _ => {
            assert(false);
        },
    }
}

/// What a claimed parse of `Section` says about the bytes at this point.
#[verifier::rlimit(100)]
proof fn lemma_err_section_type_1_fail(buffer: Seq<u8>, c0: Seq<u8>, c1: Seq<u8>)
    requires
        <Section as Decode>::complete(),
        <Section as Decode>::dec_ok(buffer),
        c0 == buffer,
        c0 == seq![1u8] + c1,
    ensures
        <Sized<Vec<FuncType>> as Decode>::dec_ok(c1),
{
    let (w, e) = choose|w: SpecSection, e: Seq<u8>|
        <Section as Encode>::spec_wf(w) && buffer == <Section as Encode>::spec_enc(w)
            + e && <Section as Decode>::tail_stop(e);
    lemma_section_head(w);
    assert((<Section as Encode>::spec_enc(w) + e)[0]
        == <Section as Encode>::spec_enc(w)[0]);
    assert(buffer[0] == section_op(w));
    assert(section_op(w) == 1u8);
    match w {
        SpecSection::Type(wv0) => {
            assert(buffer =~= seq![1u8] + (<Sized<Vec<FuncType>> as Encode>::spec_enc(wv0) + (e)));
            lemma_concat_cancel(seq![1u8], c1, seq![1u8], <Sized<Vec<FuncType>> as Encode>::spec_enc(wv0) + (e));
            assert(c1 == <Sized<Vec<FuncType>> as Encode>::spec_enc(wv0) + (e));
            assert(c1 == <Sized<Vec<FuncType>> as Encode>::spec_enc(wv0) + (e));
            <Sized<Vec<FuncType>> as Decode>::lemma_plain(e);
            <Sized<Vec<FuncType>> as Decode>::lemma_covers(wv0, e);
            assert(<Sized<Vec<FuncType>> as Decode>::dec_ok(c1));
        },
        _ => {
            assert(false);
        },
    }
}

/// What a claimed parse of `Section` says about the bytes at this point.
#[verifier::rlimit(100)]
proof fn lemma_err_section_import_1_fail(buffer: Seq<u8>, c0: Seq<u8>, c1: Seq<u8>)
    requires
        <Section as Decode>::complete(),
        <Section as Decode>::dec_ok(buffer),
        c0 == buffer,
        c0 == seq![2u8] + c1,
    ensures
        <Sized<Vec<Import>> as Decode>::dec_ok(c1),
{
    let (w, e) = choose|w: SpecSection, e: Seq<u8>|
        <Section as Encode>::spec_wf(w) && buffer == <Section as Encode>::spec_enc(w)
            + e && <Section as Decode>::tail_stop(e);
    lemma_section_head(w);
    assert((<Section as Encode>::spec_enc(w) + e)[0]
        == <Section as Encode>::spec_enc(w)[0]);
    assert(buffer[0] == section_op(w));
    assert(section_op(w) == 2u8);
    match w {
        SpecSection::Import(wv0) => {
            assert(buffer =~= seq![2u8] + (<Sized<Vec<Import>> as Encode>::spec_enc(wv0) + (e)));
            lemma_concat_cancel(seq![2u8], c1, seq![2u8], <Sized<Vec<Import>> as Encode>::spec_enc(wv0) + (e));
            assert(c1 == <Sized<Vec<Import>> as Encode>::spec_enc(wv0) + (e));
            assert(c1 == <Sized<Vec<Import>> as Encode>::spec_enc(wv0) + (e));
            <Sized<Vec<Import>> as Decode>::lemma_plain(e);
            <Sized<Vec<Import>> as Decode>::lemma_covers(wv0, e);
            assert(<Sized<Vec<Import>> as Decode>::dec_ok(c1));
        },
        _ => {
            assert(false);
        },
    }
}

/// What a claimed parse of `Section` says about the bytes at this point.
#[verifier::rlimit(100)]
proof fn lemma_err_section_function_1_fail(buffer: Seq<u8>, c0: Seq<u8>, c1: Seq<u8>)
    requires
        <Section as Decode>::complete(),
        <Section as Decode>::dec_ok(buffer),
        c0 == buffer,
        c0 == seq![3u8] + c1,
    ensures
        <Sized<Vec<TypeIdx>> as Decode>::dec_ok(c1),
{
    let (w, e) = choose|w: SpecSection, e: Seq<u8>|
        <Section as Encode>::spec_wf(w) && buffer == <Section as Encode>::spec_enc(w)
            + e && <Section as Decode>::tail_stop(e);
    lemma_section_head(w);
    assert((<Section as Encode>::spec_enc(w) + e)[0]
        == <Section as Encode>::spec_enc(w)[0]);
    assert(buffer[0] == section_op(w));
    assert(section_op(w) == 3u8);
    match w {
        SpecSection::Function(wv0) => {
            assert(buffer =~= seq![3u8] + (<Sized<Vec<TypeIdx>> as Encode>::spec_enc(wv0) + (e)));
            lemma_concat_cancel(seq![3u8], c1, seq![3u8], <Sized<Vec<TypeIdx>> as Encode>::spec_enc(wv0) + (e));
            assert(c1 == <Sized<Vec<TypeIdx>> as Encode>::spec_enc(wv0) + (e));
            assert(c1 == <Sized<Vec<TypeIdx>> as Encode>::spec_enc(wv0) + (e));
            <Sized<Vec<TypeIdx>> as Decode>::lemma_plain(e);
            <Sized<Vec<TypeIdx>> as Decode>::lemma_covers(wv0, e);
            assert(<Sized<Vec<TypeIdx>> as Decode>::dec_ok(c1));
        },
        _ => {
            assert(false);
        },
    }
}

/// What a claimed parse of `Section` says about the bytes at this point.
#[verifier::rlimit(100)]
proof fn lemma_err_section_table_1_fail(buffer: Seq<u8>, c0: Seq<u8>, c1: Seq<u8>)
    requires
        <Section as Decode>::complete(),
        <Section as Decode>::dec_ok(buffer),
        c0 == buffer,
        c0 == seq![4u8] + c1,
    ensures
        <Sized<Vec<Table>> as Decode>::dec_ok(c1),
{
    let (w, e) = choose|w: SpecSection, e: Seq<u8>|
        <Section as Encode>::spec_wf(w) && buffer == <Section as Encode>::spec_enc(w)
            + e && <Section as Decode>::tail_stop(e);
    lemma_section_head(w);
    assert((<Section as Encode>::spec_enc(w) + e)[0]
        == <Section as Encode>::spec_enc(w)[0]);
    assert(buffer[0] == section_op(w));
    assert(section_op(w) == 4u8);
    match w {
        SpecSection::Table(wv0) => {
            assert(buffer =~= seq![4u8] + (<Sized<Vec<Table>> as Encode>::spec_enc(wv0) + (e)));
            lemma_concat_cancel(seq![4u8], c1, seq![4u8], <Sized<Vec<Table>> as Encode>::spec_enc(wv0) + (e));
            assert(c1 == <Sized<Vec<Table>> as Encode>::spec_enc(wv0) + (e));
            assert(c1 == <Sized<Vec<Table>> as Encode>::spec_enc(wv0) + (e));
            <Sized<Vec<Table>> as Decode>::lemma_plain(e);
            <Sized<Vec<Table>> as Decode>::lemma_covers(wv0, e);
            assert(<Sized<Vec<Table>> as Decode>::dec_ok(c1));
        },
        _ => {
            assert(false);
        },
    }
}

/// What a claimed parse of `Section` says about the bytes at this point.
#[verifier::rlimit(100)]
proof fn lemma_err_section_mem_1_fail(buffer: Seq<u8>, c0: Seq<u8>, c1: Seq<u8>)
    requires
        <Section as Decode>::complete(),
        <Section as Decode>::dec_ok(buffer),
        c0 == buffer,
        c0 == seq![5u8] + c1,
    ensures
        <Sized<Vec<Mem>> as Decode>::dec_ok(c1),
{
    let (w, e) = choose|w: SpecSection, e: Seq<u8>|
        <Section as Encode>::spec_wf(w) && buffer == <Section as Encode>::spec_enc(w)
            + e && <Section as Decode>::tail_stop(e);
    lemma_section_head(w);
    assert((<Section as Encode>::spec_enc(w) + e)[0]
        == <Section as Encode>::spec_enc(w)[0]);
    assert(buffer[0] == section_op(w));
    assert(section_op(w) == 5u8);
    match w {
        SpecSection::Mem(wv0) => {
            assert(buffer =~= seq![5u8] + (<Sized<Vec<Mem>> as Encode>::spec_enc(wv0) + (e)));
            lemma_concat_cancel(seq![5u8], c1, seq![5u8], <Sized<Vec<Mem>> as Encode>::spec_enc(wv0) + (e));
            assert(c1 == <Sized<Vec<Mem>> as Encode>::spec_enc(wv0) + (e));
            assert(c1 == <Sized<Vec<Mem>> as Encode>::spec_enc(wv0) + (e));
            <Sized<Vec<Mem>> as Decode>::lemma_plain(e);
            <Sized<Vec<Mem>> as Decode>::lemma_covers(wv0, e);
            assert(<Sized<Vec<Mem>> as Decode>::dec_ok(c1));
        },
        _ => {
            assert(false);
        },
    }
}

/// What a claimed parse of `Section` says about the bytes at this point.
#[verifier::rlimit(100)]
proof fn lemma_err_section_global_1_fail(buffer: Seq<u8>, c0: Seq<u8>, c1: Seq<u8>)
    requires
        <Section as Decode>::complete(),
        <Section as Decode>::dec_ok(buffer),
        c0 == buffer,
        c0 == seq![6u8] + c1,
    ensures
        <Sized<Vec<Global>> as Decode>::dec_ok(c1),
{
    let (w, e) = choose|w: SpecSection, e: Seq<u8>|
        <Section as Encode>::spec_wf(w) && buffer == <Section as Encode>::spec_enc(w)
            + e && <Section as Decode>::tail_stop(e);
    lemma_section_head(w);
    assert((<Section as Encode>::spec_enc(w) + e)[0]
        == <Section as Encode>::spec_enc(w)[0]);
    assert(buffer[0] == section_op(w));
    assert(section_op(w) == 6u8);
    match w {
        SpecSection::Global(wv0) => {
            assert(buffer =~= seq![6u8] + (<Sized<Vec<Global>> as Encode>::spec_enc(wv0) + (e)));
            lemma_concat_cancel(seq![6u8], c1, seq![6u8], <Sized<Vec<Global>> as Encode>::spec_enc(wv0) + (e));
            assert(c1 == <Sized<Vec<Global>> as Encode>::spec_enc(wv0) + (e));
            assert(c1 == <Sized<Vec<Global>> as Encode>::spec_enc(wv0) + (e));
            <Sized<Vec<Global>> as Decode>::lemma_plain(e);
            <Sized<Vec<Global>> as Decode>::lemma_covers(wv0, e);
            assert(<Sized<Vec<Global>> as Decode>::dec_ok(c1));
        },
        _ => {
            assert(false);
        },
    }
}

/// What a claimed parse of `Section` says about the bytes at this point.
#[verifier::rlimit(100)]
proof fn lemma_err_section_export_1_fail(buffer: Seq<u8>, c0: Seq<u8>, c1: Seq<u8>)
    requires
        <Section as Decode>::complete(),
        <Section as Decode>::dec_ok(buffer),
        c0 == buffer,
        c0 == seq![7u8] + c1,
    ensures
        <Sized<Vec<Export>> as Decode>::dec_ok(c1),
{
    let (w, e) = choose|w: SpecSection, e: Seq<u8>|
        <Section as Encode>::spec_wf(w) && buffer == <Section as Encode>::spec_enc(w)
            + e && <Section as Decode>::tail_stop(e);
    lemma_section_head(w);
    assert((<Section as Encode>::spec_enc(w) + e)[0]
        == <Section as Encode>::spec_enc(w)[0]);
    assert(buffer[0] == section_op(w));
    assert(section_op(w) == 7u8);
    match w {
        SpecSection::Export(wv0) => {
            assert(buffer =~= seq![7u8] + (<Sized<Vec<Export>> as Encode>::spec_enc(wv0) + (e)));
            lemma_concat_cancel(seq![7u8], c1, seq![7u8], <Sized<Vec<Export>> as Encode>::spec_enc(wv0) + (e));
            assert(c1 == <Sized<Vec<Export>> as Encode>::spec_enc(wv0) + (e));
            assert(c1 == <Sized<Vec<Export>> as Encode>::spec_enc(wv0) + (e));
            <Sized<Vec<Export>> as Decode>::lemma_plain(e);
            <Sized<Vec<Export>> as Decode>::lemma_covers(wv0, e);
            assert(<Sized<Vec<Export>> as Decode>::dec_ok(c1));
        },
        _ => {
            assert(false);
        },
    }
}

/// What a claimed parse of `Section` says about the bytes at this point.
#[verifier::rlimit(100)]
proof fn lemma_err_section_start_1_fail(buffer: Seq<u8>, c0: Seq<u8>, c1: Seq<u8>)
    requires
        <Section as Decode>::complete(),
        <Section as Decode>::dec_ok(buffer),
        c0 == buffer,
        c0 == seq![8u8] + c1,
    ensures
        <Sized<FuncIdx> as Decode>::dec_ok(c1),
{
    let (w, e) = choose|w: SpecSection, e: Seq<u8>|
        <Section as Encode>::spec_wf(w) && buffer == <Section as Encode>::spec_enc(w)
            + e && <Section as Decode>::tail_stop(e);
    lemma_section_head(w);
    assert((<Section as Encode>::spec_enc(w) + e)[0]
        == <Section as Encode>::spec_enc(w)[0]);
    assert(buffer[0] == section_op(w));
    assert(section_op(w) == 8u8);
    match w {
        SpecSection::Start(wv0) => {
            assert(buffer =~= seq![8u8] + (<Sized<FuncIdx> as Encode>::spec_enc(wv0) + (e)));
            lemma_concat_cancel(seq![8u8], c1, seq![8u8], <Sized<FuncIdx> as Encode>::spec_enc(wv0) + (e));
            assert(c1 == <Sized<FuncIdx> as Encode>::spec_enc(wv0) + (e));
            assert(c1 == <Sized<FuncIdx> as Encode>::spec_enc(wv0) + (e));
            <Sized<FuncIdx> as Decode>::lemma_plain(e);
            <Sized<FuncIdx> as Decode>::lemma_covers(wv0, e);
            assert(<Sized<FuncIdx> as Decode>::dec_ok(c1));
        },
        _ => {
            assert(false);
        },
    }
}

/// What a claimed parse of `Section` says about the bytes at this point.
#[verifier::rlimit(100)]
proof fn lemma_err_section_element_1_fail(buffer: Seq<u8>, c0: Seq<u8>, c1: Seq<u8>)
    requires
        <Section as Decode>::complete(),
        <Section as Decode>::dec_ok(buffer),
        c0 == buffer,
        c0 == seq![9u8] + c1,
    ensures
        <Sized<Vec<Elem>> as Decode>::dec_ok(c1),
{
    let (w, e) = choose|w: SpecSection, e: Seq<u8>|
        <Section as Encode>::spec_wf(w) && buffer == <Section as Encode>::spec_enc(w)
            + e && <Section as Decode>::tail_stop(e);
    lemma_section_head(w);
    assert((<Section as Encode>::spec_enc(w) + e)[0]
        == <Section as Encode>::spec_enc(w)[0]);
    assert(buffer[0] == section_op(w));
    assert(section_op(w) == 9u8);
    match w {
        SpecSection::Element(wv0) => {
            assert(buffer =~= seq![9u8] + (<Sized<Vec<Elem>> as Encode>::spec_enc(wv0) + (e)));
            lemma_concat_cancel(seq![9u8], c1, seq![9u8], <Sized<Vec<Elem>> as Encode>::spec_enc(wv0) + (e));
            assert(c1 == <Sized<Vec<Elem>> as Encode>::spec_enc(wv0) + (e));
            assert(c1 == <Sized<Vec<Elem>> as Encode>::spec_enc(wv0) + (e));
            <Sized<Vec<Elem>> as Decode>::lemma_plain(e);
            <Sized<Vec<Elem>> as Decode>::lemma_covers(wv0, e);
            assert(<Sized<Vec<Elem>> as Decode>::dec_ok(c1));
        },
        _ => {
            assert(false);
        },
    }
}

/// What a claimed parse of `Section` says about the bytes at this point.
#[verifier::rlimit(100)]
proof fn lemma_err_section_code_1_fail(buffer: Seq<u8>, c0: Seq<u8>, c1: Seq<u8>)
    requires
        <Section as Decode>::complete(),
        <Section as Decode>::dec_ok(buffer),
        c0 == buffer,
        c0 == seq![10u8] + c1,
    ensures
        <Sized<Vec<Code>> as Decode>::dec_ok(c1),
{
    let (w, e) = choose|w: SpecSection, e: Seq<u8>|
        <Section as Encode>::spec_wf(w) && buffer == <Section as Encode>::spec_enc(w)
            + e && <Section as Decode>::tail_stop(e);
    lemma_section_head(w);
    assert((<Section as Encode>::spec_enc(w) + e)[0]
        == <Section as Encode>::spec_enc(w)[0]);
    assert(buffer[0] == section_op(w));
    assert(section_op(w) == 10u8);
    match w {
        SpecSection::Code(wv0) => {
            assert(buffer =~= seq![10u8] + (<Sized<Vec<Code>> as Encode>::spec_enc(wv0) + (e)));
            lemma_concat_cancel(seq![10u8], c1, seq![10u8], <Sized<Vec<Code>> as Encode>::spec_enc(wv0) + (e));
            assert(c1 == <Sized<Vec<Code>> as Encode>::spec_enc(wv0) + (e));
            assert(c1 == <Sized<Vec<Code>> as Encode>::spec_enc(wv0) + (e));
            <Sized<Vec<Code>> as Decode>::lemma_plain(e);
            <Sized<Vec<Code>> as Decode>::lemma_covers(wv0, e);
            assert(<Sized<Vec<Code>> as Decode>::dec_ok(c1));
        },
        _ => {
            assert(false);
        },
    }
}

/// What a claimed parse of `Section` says about the bytes at this point.
#[verifier::rlimit(100)]
proof fn lemma_err_section_data_1_fail(buffer: Seq<u8>, c0: Seq<u8>, c1: Seq<u8>)
    requires
        <Section as Decode>::complete(),
        <Section as Decode>::dec_ok(buffer),
        c0 == buffer,
        c0 == seq![11u8] + c1,
    ensures
        <Sized<Vec<Data>> as Decode>::dec_ok(c1),
{
    let (w, e) = choose|w: SpecSection, e: Seq<u8>|
        <Section as Encode>::spec_wf(w) && buffer == <Section as Encode>::spec_enc(w)
            + e && <Section as Decode>::tail_stop(e);
    lemma_section_head(w);
    assert((<Section as Encode>::spec_enc(w) + e)[0]
        == <Section as Encode>::spec_enc(w)[0]);
    assert(buffer[0] == section_op(w));
    assert(section_op(w) == 11u8);
    match w {
        SpecSection::Data(wv0) => {
            assert(buffer =~= seq![11u8] + (<Sized<Vec<Data>> as Encode>::spec_enc(wv0) + (e)));
            lemma_concat_cancel(seq![11u8], c1, seq![11u8], <Sized<Vec<Data>> as Encode>::spec_enc(wv0) + (e));
            assert(c1 == <Sized<Vec<Data>> as Encode>::spec_enc(wv0) + (e));
            assert(c1 == <Sized<Vec<Data>> as Encode>::spec_enc(wv0) + (e));
            <Sized<Vec<Data>> as Decode>::lemma_plain(e);
            <Sized<Vec<Data>> as Decode>::lemma_covers(wv0, e);
            assert(<Sized<Vec<Data>> as Decode>::dec_ok(c1));
        },
        _ => {
            assert(false);
        },
    }
}

/// What a claimed parse of `Section` says about the bytes at this point.
#[verifier::rlimit(100)]
proof fn lemma_err_section_data_count_1_fail(buffer: Seq<u8>, c0: Seq<u8>, c1: Seq<u8>)
    requires
        <Section as Decode>::complete(),
        <Section as Decode>::dec_ok(buffer),
        c0 == buffer,
        c0 == seq![12u8] + c1,
    ensures
        <Sized<u32> as Decode>::dec_ok(c1),
{
    let (w, e) = choose|w: SpecSection, e: Seq<u8>|
        <Section as Encode>::spec_wf(w) && buffer == <Section as Encode>::spec_enc(w)
            + e && <Section as Decode>::tail_stop(e);
    lemma_section_head(w);
    assert((<Section as Encode>::spec_enc(w) + e)[0]
        == <Section as Encode>::spec_enc(w)[0]);
    assert(buffer[0] == section_op(w));
    assert(section_op(w) == 12u8);
    match w {
        SpecSection::DataCount(wv0) => {
            assert(buffer =~= seq![12u8] + (<Sized<u32> as Encode>::spec_enc(wv0) + (e)));
            lemma_concat_cancel(seq![12u8], c1, seq![12u8], <Sized<u32> as Encode>::spec_enc(wv0) + (e));
            assert(c1 == <Sized<u32> as Encode>::spec_enc(wv0) + (e));
            assert(c1 == <Sized<u32> as Encode>::spec_enc(wv0) + (e));
            <Sized<u32> as Decode>::lemma_plain(e);
            <Sized<u32> as Decode>::lemma_covers(wv0, e);
            assert(<Sized<u32> as Decode>::dec_ok(c1));
        },
        _ => {
            assert(false);
        },
    }
}

/// `Module` non-terminal of the binary grammar.
#[derive(Debug, PartialEq)]
pub struct Module(pub Repeated<Section>);

/// Deep view of [`Module`]: the same shape over abstract sequences.
pub struct SpecModule(pub Seq<SpecSection>);

impl DeepView for Module {
    type V = SpecModule;

    open spec fn deep_view(&self) -> SpecModule {
        SpecModule(self.0.deep_view())
    }
}

impl Encode for Module {
    open spec fn spec_enc(v: SpecModule) -> Seq<u8> {
        seq![0u8] + seq![97u8] + seq![115u8] + seq![109u8] + seq![1u8] + seq![0u8] + seq![0u8] + seq![0u8] + <Repeated<Section> as Encode>::spec_enc(v.0)
    }

    open spec fn spec_wf(v: SpecModule) -> bool {
        <Repeated<Section> as Encode>::spec_wf(v.0)
    }

    #[verifier::rlimit(100)]
    fn encode(&self, buffer: &mut Vec<u8>) {
        buffer.push(0u8);
        assert(buffer@ =~= old(buffer)@ + seq![0u8]);
        buffer.push(97u8);
        assert(buffer@ =~= old(buffer)@ + seq![0u8] + seq![97u8]);
        buffer.push(115u8);
        assert(buffer@ =~= old(buffer)@ + seq![0u8] + seq![97u8] + seq![115u8]);
        buffer.push(109u8);
        assert(buffer@ =~= old(buffer)@ + seq![0u8] + seq![97u8] + seq![115u8] + seq![109u8]);
        buffer.push(1u8);
        assert(buffer@ =~= old(buffer)@ + seq![0u8] + seq![97u8] + seq![115u8] + seq![109u8] + seq![1u8]);
        buffer.push(0u8);
        assert(buffer@ =~= old(buffer)@ + seq![0u8] + seq![97u8] + seq![115u8] + seq![109u8] + seq![1u8] + seq![0u8]);
        buffer.push(0u8);
        assert(buffer@ =~= old(buffer)@ + seq![0u8] + seq![97u8] + seq![115u8] + seq![109u8] + seq![1u8] + seq![0u8] + seq![0u8]);
        buffer.push(0u8);
        assert(buffer@ =~= old(buffer)@ + seq![0u8] + seq![97u8] + seq![115u8] + seq![109u8] + seq![1u8] + seq![0u8] + seq![0u8] + seq![0u8]);
        self.0.encode(buffer);
        assert(buffer@ =~= old(buffer)@ + seq![0u8] + seq![97u8] + seq![115u8] + seq![109u8] + seq![1u8] + seq![0u8] + seq![0u8] + seq![0u8] + <Repeated<Section> as Encode>::spec_enc(self.0.deep_view()));
        assert(buffer@ =~= old(buffer)@ + Self::spec_enc(self.deep_view()));
    }
}

impl Decode for Module {
    open spec fn tail_stop(s: Seq<u8>) -> bool {
        <Repeated<Section> as Decode>::tail_stop(s)
    }

    open spec fn plain() -> bool {
        false
    }

    open spec fn complete() -> bool {
        <Repeated<Section> as Decode>::complete()
    }

    #[verifier::rlimit(100)]
    proof fn lemma_plain(s: Seq<u8>) {
    }

    #[verifier::rlimit(100)]
    proof fn lemma_unamb(v1: SpecModule, v2: SpecModule, e1: Seq<u8>, e2: Seq<u8>) {
        assert(Self::spec_enc(v1) + e1 =~= seq![0u8] + (seq![97u8] + (seq![115u8] + (seq![109u8] + (seq![1u8] + (seq![0u8] + (seq![0u8] + (seq![0u8] + (<Repeated<Section> as Encode>::spec_enc(v1.0) + (e1))))))))));
        assert(Self::spec_enc(v2) + e2 =~= seq![0u8] + (seq![97u8] + (seq![115u8] + (seq![109u8] + (seq![1u8] + (seq![0u8] + (seq![0u8] + (seq![0u8] + (<Repeated<Section> as Encode>::spec_enc(v2.0) + (e2))))))))));
        lemma_concat_cancel(seq![0u8], seq![97u8] + (seq![115u8] + (seq![109u8] + (seq![1u8] + (seq![0u8] + (seq![0u8] + (seq![0u8] + (<Repeated<Section> as Encode>::spec_enc(v1.0) + (e1)))))))), seq![0u8], seq![97u8] + (seq![115u8] + (seq![109u8] + (seq![1u8] + (seq![0u8] + (seq![0u8] + (seq![0u8] + (<Repeated<Section> as Encode>::spec_enc(v2.0) + (e2)))))))));
        lemma_concat_cancel(seq![97u8], seq![115u8] + (seq![109u8] + (seq![1u8] + (seq![0u8] + (seq![0u8] + (seq![0u8] + (<Repeated<Section> as Encode>::spec_enc(v1.0) + (e1))))))), seq![97u8], seq![115u8] + (seq![109u8] + (seq![1u8] + (seq![0u8] + (seq![0u8] + (seq![0u8] + (<Repeated<Section> as Encode>::spec_enc(v2.0) + (e2))))))));
        lemma_concat_cancel(seq![115u8], seq![109u8] + (seq![1u8] + (seq![0u8] + (seq![0u8] + (seq![0u8] + (<Repeated<Section> as Encode>::spec_enc(v1.0) + (e1)))))), seq![115u8], seq![109u8] + (seq![1u8] + (seq![0u8] + (seq![0u8] + (seq![0u8] + (<Repeated<Section> as Encode>::spec_enc(v2.0) + (e2)))))));
        lemma_concat_cancel(seq![109u8], seq![1u8] + (seq![0u8] + (seq![0u8] + (seq![0u8] + (<Repeated<Section> as Encode>::spec_enc(v1.0) + (e1))))), seq![109u8], seq![1u8] + (seq![0u8] + (seq![0u8] + (seq![0u8] + (<Repeated<Section> as Encode>::spec_enc(v2.0) + (e2))))));
        lemma_concat_cancel(seq![1u8], seq![0u8] + (seq![0u8] + (seq![0u8] + (<Repeated<Section> as Encode>::spec_enc(v1.0) + (e1)))), seq![1u8], seq![0u8] + (seq![0u8] + (seq![0u8] + (<Repeated<Section> as Encode>::spec_enc(v2.0) + (e2)))));
        lemma_concat_cancel(seq![0u8], seq![0u8] + (seq![0u8] + (<Repeated<Section> as Encode>::spec_enc(v1.0) + (e1))), seq![0u8], seq![0u8] + (seq![0u8] + (<Repeated<Section> as Encode>::spec_enc(v2.0) + (e2))));
        lemma_concat_cancel(seq![0u8], seq![0u8] + (<Repeated<Section> as Encode>::spec_enc(v1.0) + (e1)), seq![0u8], seq![0u8] + (<Repeated<Section> as Encode>::spec_enc(v2.0) + (e2)));
        lemma_concat_cancel(seq![0u8], <Repeated<Section> as Encode>::spec_enc(v1.0) + (e1), seq![0u8], <Repeated<Section> as Encode>::spec_enc(v2.0) + (e2));
        <Repeated<Section> as Decode>::lemma_unamb(v1.0, v2.0, e1, e2);
        assert(e1 == e2);
        assert(v1 == SpecModule(v1.0) && v2 == SpecModule(v2.0));
    }

    proof fn lemma_covers(v: Self::V, e: Seq<u8>) {
        assert(Self::spec_wf(v) && Self::spec_enc(v) + e == Self::spec_enc(v) + e
            && Self::tail_stop(e));
    }

    #[verifier::rlimit(100)]
    fn decode(buffer: &[u8]) -> (r: DecodeResult<Self>) {
        let cur0 = buffer;
        let (lit0, cur1) = match <u8 as Decode>::decode(cur0) {
            Ok(p) => p,
            Err(_) => {
                proof {
                    if Self::complete() && Self::dec_ok(buffer@) {
                        lemma_err_module_module_0_nobyte(buffer@, cur0@);
                    }
                }
                return Err(DecodeError::Error);
            },
        };
        if lit0 != 0u8 {
            proof {
                if Self::complete() && Self::dec_ok(buffer@) {
                    lemma_err_module_module_0_mismatch(buffer@, cur0@);
                }
            }
            return Err(DecodeError::Error);
        }
        assert(buffer@ =~= seq![0u8] + cur1@);
        let (lit1, cur2) = match <u8 as Decode>::decode(cur1) {
            Ok(p) => p,
            Err(_) => {
                proof {
                    if Self::complete() && Self::dec_ok(buffer@) {
                        lemma_err_module_module_1_nobyte(buffer@, cur0@, cur1@);
                    }
                }
                return Err(DecodeError::Error);
            },
        };
        if lit1 != 97u8 {
            proof {
                if Self::complete() && Self::dec_ok(buffer@) {
                    lemma_err_module_module_1_mismatch(buffer@, cur0@, cur1@);
                }
            }
            return Err(DecodeError::Error);
        }
        assert(buffer@ =~= seq![0u8] + seq![97u8] + cur2@);
        let (lit2, cur3) = match <u8 as Decode>::decode(cur2) {
            Ok(p) => p,
            Err(_) => {
                proof {
                    if Self::complete() && Self::dec_ok(buffer@) {
                        lemma_err_module_module_2_nobyte(buffer@, cur0@, cur1@, cur2@);
                    }
                }
                return Err(DecodeError::Error);
            },
        };
        if lit2 != 115u8 {
            proof {
                if Self::complete() && Self::dec_ok(buffer@) {
                    lemma_err_module_module_2_mismatch(buffer@, cur0@, cur1@, cur2@);
                }
            }
            return Err(DecodeError::Error);
        }
        assert(buffer@ =~= seq![0u8] + seq![97u8] + seq![115u8] + cur3@);
        let (lit3, cur4) = match <u8 as Decode>::decode(cur3) {
            Ok(p) => p,
            Err(_) => {
                proof {
                    if Self::complete() && Self::dec_ok(buffer@) {
                        lemma_err_module_module_3_nobyte(buffer@, cur0@, cur1@, cur2@, cur3@);
                    }
                }
                return Err(DecodeError::Error);
            },
        };
        if lit3 != 109u8 {
            proof {
                if Self::complete() && Self::dec_ok(buffer@) {
                    lemma_err_module_module_3_mismatch(buffer@, cur0@, cur1@, cur2@, cur3@);
                }
            }
            return Err(DecodeError::Error);
        }
        assert(buffer@ =~= seq![0u8] + seq![97u8] + seq![115u8] + seq![109u8] + cur4@);
        let (lit4, cur5) = match <u8 as Decode>::decode(cur4) {
            Ok(p) => p,
            Err(_) => {
                proof {
                    if Self::complete() && Self::dec_ok(buffer@) {
                        lemma_err_module_module_4_nobyte(buffer@, cur0@, cur1@, cur2@, cur3@, cur4@);
                    }
                }
                return Err(DecodeError::Error);
            },
        };
        if lit4 != 1u8 {
            proof {
                if Self::complete() && Self::dec_ok(buffer@) {
                    lemma_err_module_module_4_mismatch(buffer@, cur0@, cur1@, cur2@, cur3@, cur4@);
                }
            }
            return Err(DecodeError::Error);
        }
        assert(buffer@ =~= seq![0u8] + seq![97u8] + seq![115u8] + seq![109u8] + seq![1u8] + cur5@);
        let (lit5, cur6) = match <u8 as Decode>::decode(cur5) {
            Ok(p) => p,
            Err(_) => {
                proof {
                    if Self::complete() && Self::dec_ok(buffer@) {
                        lemma_err_module_module_5_nobyte(buffer@, cur0@, cur1@, cur2@, cur3@, cur4@, cur5@);
                    }
                }
                return Err(DecodeError::Error);
            },
        };
        if lit5 != 0u8 {
            proof {
                if Self::complete() && Self::dec_ok(buffer@) {
                    lemma_err_module_module_5_mismatch(buffer@, cur0@, cur1@, cur2@, cur3@, cur4@, cur5@);
                }
            }
            return Err(DecodeError::Error);
        }
        assert(buffer@ =~= seq![0u8] + seq![97u8] + seq![115u8] + seq![109u8] + seq![1u8] + seq![0u8] + cur6@);
        let (lit6, cur7) = match <u8 as Decode>::decode(cur6) {
            Ok(p) => p,
            Err(_) => {
                proof {
                    if Self::complete() && Self::dec_ok(buffer@) {
                        lemma_err_module_module_6_nobyte(buffer@, cur0@, cur1@, cur2@, cur3@, cur4@, cur5@, cur6@);
                    }
                }
                return Err(DecodeError::Error);
            },
        };
        if lit6 != 0u8 {
            proof {
                if Self::complete() && Self::dec_ok(buffer@) {
                    lemma_err_module_module_6_mismatch(buffer@, cur0@, cur1@, cur2@, cur3@, cur4@, cur5@, cur6@);
                }
            }
            return Err(DecodeError::Error);
        }
        assert(buffer@ =~= seq![0u8] + seq![97u8] + seq![115u8] + seq![109u8] + seq![1u8] + seq![0u8] + seq![0u8] + cur7@);
        let (lit7, cur8) = match <u8 as Decode>::decode(cur7) {
            Ok(p) => p,
            Err(_) => {
                proof {
                    if Self::complete() && Self::dec_ok(buffer@) {
                        lemma_err_module_module_7_nobyte(buffer@, cur0@, cur1@, cur2@, cur3@, cur4@, cur5@, cur6@, cur7@);
                    }
                }
                return Err(DecodeError::Error);
            },
        };
        if lit7 != 0u8 {
            proof {
                if Self::complete() && Self::dec_ok(buffer@) {
                    lemma_err_module_module_7_mismatch(buffer@, cur0@, cur1@, cur2@, cur3@, cur4@, cur5@, cur6@, cur7@);
                }
            }
            return Err(DecodeError::Error);
        }
        assert(buffer@ =~= seq![0u8] + seq![97u8] + seq![115u8] + seq![109u8] + seq![1u8] + seq![0u8] + seq![0u8] + seq![0u8] + cur8@);
        let (f8, cur9) = match <Repeated<Section> as Decode>::decode(cur8) {
            Ok(p) => p,
            Err(_) => {
                proof {
                    if Self::complete() && Self::dec_ok(buffer@) {
                        lemma_err_module_module_8_fail(buffer@, cur0@, cur1@, cur2@, cur3@, cur4@, cur5@, cur6@, cur7@, cur8@);
                    }
                }
                return Err(DecodeError::Error);
            },
        };
        assert(buffer@ =~= seq![0u8] + seq![97u8] + seq![115u8] + seq![109u8] + seq![1u8] + seq![0u8] + seq![0u8] + seq![0u8] + <Repeated<Section> as Encode>::spec_enc(f8.deep_view()) + cur9@);
        let result = Module(f8);
        proof {
            assert(Self::spec_enc(result.deep_view()) =~= seq![0u8] + seq![97u8] + seq![115u8] + seq![109u8] + seq![1u8] + seq![0u8] + seq![0u8] + seq![0u8] + <Repeated<Section> as Encode>::spec_enc(f8.deep_view()));
            assert(buffer@ =~= Self::spec_enc(result.deep_view()) + cur9@);
            if Self::complete() {
                assert(Self::dec_ok(buffer@)) by {
                    assert(Self::spec_wf(result.deep_view()) && buffer@
                        == Self::spec_enc(result.deep_view()) + cur9@
                        && Self::tail_stop(cur9@));
                }
            }
        }
        Ok((result, cur9))
    }
}

/// What a claimed parse of `Module` says about the bytes at this point.
#[verifier::rlimit(100)]
proof fn lemma_err_module_module_0_nobyte(buffer: Seq<u8>, c0: Seq<u8>)
    requires
        <Module as Decode>::complete(),
        <Module as Decode>::dec_ok(buffer),
        c0 == buffer,
    ensures
        c0.len() >= 1,
{
    let (w, e) = choose|w: SpecModule, e: Seq<u8>|
        <Module as Encode>::spec_wf(w) && buffer == <Module as Encode>::spec_enc(w)
            + e && <Module as Decode>::tail_stop(e);
    assert(buffer =~= seq![0u8] + (seq![97u8] + (seq![115u8] + (seq![109u8] + (seq![1u8] + (seq![0u8] + (seq![0u8] + (seq![0u8] + (<Repeated<Section> as Encode>::spec_enc(w.0) + (e))))))))));
    assert(c0 == seq![0u8] + (seq![97u8] + (seq![115u8] + (seq![109u8] + (seq![1u8] + (seq![0u8] + (seq![0u8] + (seq![0u8] + (<Repeated<Section> as Encode>::spec_enc(w.0) + (e))))))))));
    assert(c0.len() >= 1);
}

/// What a claimed parse of `Module` says about the bytes at this point.
#[verifier::rlimit(100)]
proof fn lemma_err_module_module_0_mismatch(buffer: Seq<u8>, c0: Seq<u8>)
    requires
        <Module as Decode>::complete(),
        <Module as Decode>::dec_ok(buffer),
        c0 == buffer,
    ensures
        c0.len() >= 1 && c0[0] == 0u8,
{
    let (w, e) = choose|w: SpecModule, e: Seq<u8>|
        <Module as Encode>::spec_wf(w) && buffer == <Module as Encode>::spec_enc(w)
            + e && <Module as Decode>::tail_stop(e);
    assert(buffer =~= seq![0u8] + (seq![97u8] + (seq![115u8] + (seq![109u8] + (seq![1u8] + (seq![0u8] + (seq![0u8] + (seq![0u8] + (<Repeated<Section> as Encode>::spec_enc(w.0) + (e))))))))));
    assert(c0 == seq![0u8] + (seq![97u8] + (seq![115u8] + (seq![109u8] + (seq![1u8] + (seq![0u8] + (seq![0u8] + (seq![0u8] + (<Repeated<Section> as Encode>::spec_enc(w.0) + (e))))))))));
    assert(c0[0] == 0u8);
}

/// What a claimed parse of `Module` says about the bytes at this point.
#[verifier::rlimit(100)]
proof fn lemma_err_module_module_1_nobyte(buffer: Seq<u8>, c0: Seq<u8>, c1: Seq<u8>)
    requires
        <Module as Decode>::complete(),
        <Module as Decode>::dec_ok(buffer),
        c0 == buffer,
        c0 == seq![0u8] + c1,
    ensures
        c1.len() >= 1,
{
    let (w, e) = choose|w: SpecModule, e: Seq<u8>|
        <Module as Encode>::spec_wf(w) && buffer == <Module as Encode>::spec_enc(w)
            + e && <Module as Decode>::tail_stop(e);
    assert(buffer =~= seq![0u8] + (seq![97u8] + (seq![115u8] + (seq![109u8] + (seq![1u8] + (seq![0u8] + (seq![0u8] + (seq![0u8] + (<Repeated<Section> as Encode>::spec_enc(w.0) + (e))))))))));
    lemma_concat_cancel(seq![0u8], c1, seq![0u8], seq![97u8] + (seq![115u8] + (seq![109u8] + (seq![1u8] + (seq![0u8] + (seq![0u8] + (seq![0u8] + (<Repeated<Section> as Encode>::spec_enc(w.0) + (e)))))))));
    assert(c1 == seq![97u8] + (seq![115u8] + (seq![109u8] + (seq![1u8] + (seq![0u8] + (seq![0u8] + (seq![0u8] + (<Repeated<Section> as Encode>::spec_enc(w.0) + (e)))))))));
    assert(c1 == seq![97u8] + (seq![115u8] + (seq![109u8] + (seq![1u8] + (seq![0u8] + (seq![0u8] + (seq![0u8] + (<Repeated<Section> as Encode>::spec_enc(w.0) + (e)))))))));
    assert(c1.len() >= 1);
}

/// What a claimed parse of `Module` says about the bytes at this point.
#[verifier::rlimit(100)]
proof fn lemma_err_module_module_1_mismatch(buffer: Seq<u8>, c0: Seq<u8>, c1: Seq<u8>)
    requires
        <Module as Decode>::complete(),
        <Module as Decode>::dec_ok(buffer),
        c0 == buffer,
        c0 == seq![0u8] + c1,
    ensures
        c1.len() >= 1 && c1[0] == 97u8,
{
    let (w, e) = choose|w: SpecModule, e: Seq<u8>|
        <Module as Encode>::spec_wf(w) && buffer == <Module as Encode>::spec_enc(w)
            + e && <Module as Decode>::tail_stop(e);
    assert(buffer =~= seq![0u8] + (seq![97u8] + (seq![115u8] + (seq![109u8] + (seq![1u8] + (seq![0u8] + (seq![0u8] + (seq![0u8] + (<Repeated<Section> as Encode>::spec_enc(w.0) + (e))))))))));
    lemma_concat_cancel(seq![0u8], c1, seq![0u8], seq![97u8] + (seq![115u8] + (seq![109u8] + (seq![1u8] + (seq![0u8] + (seq![0u8] + (seq![0u8] + (<Repeated<Section> as Encode>::spec_enc(w.0) + (e)))))))));
    assert(c1 == seq![97u8] + (seq![115u8] + (seq![109u8] + (seq![1u8] + (seq![0u8] + (seq![0u8] + (seq![0u8] + (<Repeated<Section> as Encode>::spec_enc(w.0) + (e)))))))));
    assert(c1 == seq![97u8] + (seq![115u8] + (seq![109u8] + (seq![1u8] + (seq![0u8] + (seq![0u8] + (seq![0u8] + (<Repeated<Section> as Encode>::spec_enc(w.0) + (e)))))))));
    assert(c1[0] == 97u8);
}

/// What a claimed parse of `Module` says about the bytes at this point.
#[verifier::rlimit(100)]
proof fn lemma_err_module_module_2_nobyte(buffer: Seq<u8>, c0: Seq<u8>, c1: Seq<u8>, c2: Seq<u8>)
    requires
        <Module as Decode>::complete(),
        <Module as Decode>::dec_ok(buffer),
        c0 == buffer,
        c0 == seq![0u8] + c1,
        c1 == seq![97u8] + c2,
    ensures
        c2.len() >= 1,
{
    let (w, e) = choose|w: SpecModule, e: Seq<u8>|
        <Module as Encode>::spec_wf(w) && buffer == <Module as Encode>::spec_enc(w)
            + e && <Module as Decode>::tail_stop(e);
    assert(buffer =~= seq![0u8] + (seq![97u8] + (seq![115u8] + (seq![109u8] + (seq![1u8] + (seq![0u8] + (seq![0u8] + (seq![0u8] + (<Repeated<Section> as Encode>::spec_enc(w.0) + (e))))))))));
    lemma_concat_cancel(seq![0u8], c1, seq![0u8], seq![97u8] + (seq![115u8] + (seq![109u8] + (seq![1u8] + (seq![0u8] + (seq![0u8] + (seq![0u8] + (<Repeated<Section> as Encode>::spec_enc(w.0) + (e)))))))));
    assert(c1 == seq![97u8] + (seq![115u8] + (seq![109u8] + (seq![1u8] + (seq![0u8] + (seq![0u8] + (seq![0u8] + (<Repeated<Section> as Encode>::spec_enc(w.0) + (e)))))))));
    lemma_concat_cancel(seq![97u8], c2, seq![97u8], seq![115u8] + (seq![109u8] + (seq![1u8] + (seq![0u8] + (seq![0u8] + (seq![0u8] + (<Repeated<Section> as Encode>::spec_enc(w.0) + (e))))))));
    assert(c2 == seq![115u8] + (seq![109u8] + (seq![1u8] + (seq![0u8] + (seq![0u8] + (seq![0u8] + (<Repeated<Section> as Encode>::spec_enc(w.0) + (e))))))));
    assert(c2 == seq![115u8] + (seq![109u8] + (seq![1u8] + (seq![0u8] + (seq![0u8] + (seq![0u8] + (<Repeated<Section> as Encode>::spec_enc(w.0) + (e))))))));
    assert(c2.len() >= 1);
}

/// What a claimed parse of `Module` says about the bytes at this point.
#[verifier::rlimit(100)]
proof fn lemma_err_module_module_2_mismatch(buffer: Seq<u8>, c0: Seq<u8>, c1: Seq<u8>, c2: Seq<u8>)
    requires
        <Module as Decode>::complete(),
        <Module as Decode>::dec_ok(buffer),
        c0 == buffer,
        c0 == seq![0u8] + c1,
        c1 == seq![97u8] + c2,
    ensures
        c2.len() >= 1 && c2[0] == 115u8,
{
    let (w, e) = choose|w: SpecModule, e: Seq<u8>|
        <Module as Encode>::spec_wf(w) && buffer == <Module as Encode>::spec_enc(w)
            + e && <Module as Decode>::tail_stop(e);
    assert(buffer =~= seq![0u8] + (seq![97u8] + (seq![115u8] + (seq![109u8] + (seq![1u8] + (seq![0u8] + (seq![0u8] + (seq![0u8] + (<Repeated<Section> as Encode>::spec_enc(w.0) + (e))))))))));
    lemma_concat_cancel(seq![0u8], c1, seq![0u8], seq![97u8] + (seq![115u8] + (seq![109u8] + (seq![1u8] + (seq![0u8] + (seq![0u8] + (seq![0u8] + (<Repeated<Section> as Encode>::spec_enc(w.0) + (e)))))))));
    assert(c1 == seq![97u8] + (seq![115u8] + (seq![109u8] + (seq![1u8] + (seq![0u8] + (seq![0u8] + (seq![0u8] + (<Repeated<Section> as Encode>::spec_enc(w.0) + (e)))))))));
    lemma_concat_cancel(seq![97u8], c2, seq![97u8], seq![115u8] + (seq![109u8] + (seq![1u8] + (seq![0u8] + (seq![0u8] + (seq![0u8] + (<Repeated<Section> as Encode>::spec_enc(w.0) + (e))))))));
    assert(c2 == seq![115u8] + (seq![109u8] + (seq![1u8] + (seq![0u8] + (seq![0u8] + (seq![0u8] + (<Repeated<Section> as Encode>::spec_enc(w.0) + (e))))))));
    assert(c2 == seq![115u8] + (seq![109u8] + (seq![1u8] + (seq![0u8] + (seq![0u8] + (seq![0u8] + (<Repeated<Section> as Encode>::spec_enc(w.0) + (e))))))));
    assert(c2[0] == 115u8);
}

/// What a claimed parse of `Module` says about the bytes at this point.
#[verifier::rlimit(100)]
proof fn lemma_err_module_module_3_nobyte(buffer: Seq<u8>, c0: Seq<u8>, c1: Seq<u8>, c2: Seq<u8>, c3: Seq<u8>)
    requires
        <Module as Decode>::complete(),
        <Module as Decode>::dec_ok(buffer),
        c0 == buffer,
        c0 == seq![0u8] + c1,
        c1 == seq![97u8] + c2,
        c2 == seq![115u8] + c3,
    ensures
        c3.len() >= 1,
{
    let (w, e) = choose|w: SpecModule, e: Seq<u8>|
        <Module as Encode>::spec_wf(w) && buffer == <Module as Encode>::spec_enc(w)
            + e && <Module as Decode>::tail_stop(e);
    assert(buffer =~= seq![0u8] + (seq![97u8] + (seq![115u8] + (seq![109u8] + (seq![1u8] + (seq![0u8] + (seq![0u8] + (seq![0u8] + (<Repeated<Section> as Encode>::spec_enc(w.0) + (e))))))))));
    lemma_concat_cancel(seq![0u8], c1, seq![0u8], seq![97u8] + (seq![115u8] + (seq![109u8] + (seq![1u8] + (seq![0u8] + (seq![0u8] + (seq![0u8] + (<Repeated<Section> as Encode>::spec_enc(w.0) + (e)))))))));
    assert(c1 == seq![97u8] + (seq![115u8] + (seq![109u8] + (seq![1u8] + (seq![0u8] + (seq![0u8] + (seq![0u8] + (<Repeated<Section> as Encode>::spec_enc(w.0) + (e)))))))));
    lemma_concat_cancel(seq![97u8], c2, seq![97u8], seq![115u8] + (seq![109u8] + (seq![1u8] + (seq![0u8] + (seq![0u8] + (seq![0u8] + (<Repeated<Section> as Encode>::spec_enc(w.0) + (e))))))));
    assert(c2 == seq![115u8] + (seq![109u8] + (seq![1u8] + (seq![0u8] + (seq![0u8] + (seq![0u8] + (<Repeated<Section> as Encode>::spec_enc(w.0) + (e))))))));
    lemma_concat_cancel(seq![115u8], c3, seq![115u8], seq![109u8] + (seq![1u8] + (seq![0u8] + (seq![0u8] + (seq![0u8] + (<Repeated<Section> as Encode>::spec_enc(w.0) + (e)))))));
    assert(c3 == seq![109u8] + (seq![1u8] + (seq![0u8] + (seq![0u8] + (seq![0u8] + (<Repeated<Section> as Encode>::spec_enc(w.0) + (e)))))));
    assert(c3 == seq![109u8] + (seq![1u8] + (seq![0u8] + (seq![0u8] + (seq![0u8] + (<Repeated<Section> as Encode>::spec_enc(w.0) + (e)))))));
    assert(c3.len() >= 1);
}

/// What a claimed parse of `Module` says about the bytes at this point.
#[verifier::rlimit(100)]
proof fn lemma_err_module_module_3_mismatch(buffer: Seq<u8>, c0: Seq<u8>, c1: Seq<u8>, c2: Seq<u8>, c3: Seq<u8>)
    requires
        <Module as Decode>::complete(),
        <Module as Decode>::dec_ok(buffer),
        c0 == buffer,
        c0 == seq![0u8] + c1,
        c1 == seq![97u8] + c2,
        c2 == seq![115u8] + c3,
    ensures
        c3.len() >= 1 && c3[0] == 109u8,
{
    let (w, e) = choose|w: SpecModule, e: Seq<u8>|
        <Module as Encode>::spec_wf(w) && buffer == <Module as Encode>::spec_enc(w)
            + e && <Module as Decode>::tail_stop(e);
    assert(buffer =~= seq![0u8] + (seq![97u8] + (seq![115u8] + (seq![109u8] + (seq![1u8] + (seq![0u8] + (seq![0u8] + (seq![0u8] + (<Repeated<Section> as Encode>::spec_enc(w.0) + (e))))))))));
    lemma_concat_cancel(seq![0u8], c1, seq![0u8], seq![97u8] + (seq![115u8] + (seq![109u8] + (seq![1u8] + (seq![0u8] + (seq![0u8] + (seq![0u8] + (<Repeated<Section> as Encode>::spec_enc(w.0) + (e)))))))));
    assert(c1 == seq![97u8] + (seq![115u8] + (seq![109u8] + (seq![1u8] + (seq![0u8] + (seq![0u8] + (seq![0u8] + (<Repeated<Section> as Encode>::spec_enc(w.0) + (e)))))))));
    lemma_concat_cancel(seq![97u8], c2, seq![97u8], seq![115u8] + (seq![109u8] + (seq![1u8] + (seq![0u8] + (seq![0u8] + (seq![0u8] + (<Repeated<Section> as Encode>::spec_enc(w.0) + (e))))))));
    assert(c2 == seq![115u8] + (seq![109u8] + (seq![1u8] + (seq![0u8] + (seq![0u8] + (seq![0u8] + (<Repeated<Section> as Encode>::spec_enc(w.0) + (e))))))));
    lemma_concat_cancel(seq![115u8], c3, seq![115u8], seq![109u8] + (seq![1u8] + (seq![0u8] + (seq![0u8] + (seq![0u8] + (<Repeated<Section> as Encode>::spec_enc(w.0) + (e)))))));
    assert(c3 == seq![109u8] + (seq![1u8] + (seq![0u8] + (seq![0u8] + (seq![0u8] + (<Repeated<Section> as Encode>::spec_enc(w.0) + (e)))))));
    assert(c3 == seq![109u8] + (seq![1u8] + (seq![0u8] + (seq![0u8] + (seq![0u8] + (<Repeated<Section> as Encode>::spec_enc(w.0) + (e)))))));
    assert(c3[0] == 109u8);
}

/// What a claimed parse of `Module` says about the bytes at this point.
#[verifier::rlimit(100)]
proof fn lemma_err_module_module_4_nobyte(buffer: Seq<u8>, c0: Seq<u8>, c1: Seq<u8>, c2: Seq<u8>, c3: Seq<u8>, c4: Seq<u8>)
    requires
        <Module as Decode>::complete(),
        <Module as Decode>::dec_ok(buffer),
        c0 == buffer,
        c0 == seq![0u8] + c1,
        c1 == seq![97u8] + c2,
        c2 == seq![115u8] + c3,
        c3 == seq![109u8] + c4,
    ensures
        c4.len() >= 1,
{
    let (w, e) = choose|w: SpecModule, e: Seq<u8>|
        <Module as Encode>::spec_wf(w) && buffer == <Module as Encode>::spec_enc(w)
            + e && <Module as Decode>::tail_stop(e);
    assert(buffer =~= seq![0u8] + (seq![97u8] + (seq![115u8] + (seq![109u8] + (seq![1u8] + (seq![0u8] + (seq![0u8] + (seq![0u8] + (<Repeated<Section> as Encode>::spec_enc(w.0) + (e))))))))));
    lemma_concat_cancel(seq![0u8], c1, seq![0u8], seq![97u8] + (seq![115u8] + (seq![109u8] + (seq![1u8] + (seq![0u8] + (seq![0u8] + (seq![0u8] + (<Repeated<Section> as Encode>::spec_enc(w.0) + (e)))))))));
    assert(c1 == seq![97u8] + (seq![115u8] + (seq![109u8] + (seq![1u8] + (seq![0u8] + (seq![0u8] + (seq![0u8] + (<Repeated<Section> as Encode>::spec_enc(w.0) + (e)))))))));
    lemma_concat_cancel(seq![97u8], c2, seq![97u8], seq![115u8] + (seq![109u8] + (seq![1u8] + (seq![0u8] + (seq![0u8] + (seq![0u8] + (<Repeated<Section> as Encode>::spec_enc(w.0) + (e))))))));
    assert(c2 == seq![115u8] + (seq![109u8] + (seq![1u8] + (seq![0u8] + (seq![0u8] + (seq![0u8] + (<Repeated<Section> as Encode>::spec_enc(w.0) + (e))))))));
    lemma_concat_cancel(seq![115u8], c3, seq![115u8], seq![109u8] + (seq![1u8] + (seq![0u8] + (seq![0u8] + (seq![0u8] + (<Repeated<Section> as Encode>::spec_enc(w.0) + (e)))))));
    assert(c3 == seq![109u8] + (seq![1u8] + (seq![0u8] + (seq![0u8] + (seq![0u8] + (<Repeated<Section> as Encode>::spec_enc(w.0) + (e)))))));
    lemma_concat_cancel(seq![109u8], c4, seq![109u8], seq![1u8] + (seq![0u8] + (seq![0u8] + (seq![0u8] + (<Repeated<Section> as Encode>::spec_enc(w.0) + (e))))));
    assert(c4 == seq![1u8] + (seq![0u8] + (seq![0u8] + (seq![0u8] + (<Repeated<Section> as Encode>::spec_enc(w.0) + (e))))));
    assert(c4 == seq![1u8] + (seq![0u8] + (seq![0u8] + (seq![0u8] + (<Repeated<Section> as Encode>::spec_enc(w.0) + (e))))));
    assert(c4.len() >= 1);
}

/// What a claimed parse of `Module` says about the bytes at this point.
#[verifier::rlimit(100)]
proof fn lemma_err_module_module_4_mismatch(buffer: Seq<u8>, c0: Seq<u8>, c1: Seq<u8>, c2: Seq<u8>, c3: Seq<u8>, c4: Seq<u8>)
    requires
        <Module as Decode>::complete(),
        <Module as Decode>::dec_ok(buffer),
        c0 == buffer,
        c0 == seq![0u8] + c1,
        c1 == seq![97u8] + c2,
        c2 == seq![115u8] + c3,
        c3 == seq![109u8] + c4,
    ensures
        c4.len() >= 1 && c4[0] == 1u8,
{
    let (w, e) = choose|w: SpecModule, e: Seq<u8>|
        <Module as Encode>::spec_wf(w) && buffer == <Module as Encode>::spec_enc(w)
            + e && <Module as Decode>::tail_stop(e);
    assert(buffer =~= seq![0u8] + (seq![97u8] + (seq![115u8] + (seq![109u8] + (seq![1u8] + (seq![0u8] + (seq![0u8] + (seq![0u8] + (<Repeated<Section> as Encode>::spec_enc(w.0) + (e))))))))));
    lemma_concat_cancel(seq![0u8], c1, seq![0u8], seq![97u8] + (seq![115u8] + (seq![109u8] + (seq![1u8] + (seq![0u8] + (seq![0u8] + (seq![0u8] + (<Repeated<Section> as Encode>::spec_enc(w.0) + (e)))))))));
    assert(c1 == seq![97u8] + (seq![115u8] + (seq![109u8] + (seq![1u8] + (seq![0u8] + (seq![0u8] + (seq![0u8] + (<Repeated<Section> as Encode>::spec_enc(w.0) + (e)))))))));
    lemma_concat_cancel(seq![97u8], c2, seq![97u8], seq![115u8] + (seq![109u8] + (seq![1u8] + (seq![0u8] + (seq![0u8] + (seq![0u8] + (<Repeated<Section> as Encode>::spec_enc(w.0) + (e))))))));
    assert(c2 == seq![115u8] + (seq![109u8] + (seq![1u8] + (seq![0u8] + (seq![0u8] + (seq![0u8] + (<Repeated<Section> as Encode>::spec_enc(w.0) + (e))))))));
    lemma_concat_cancel(seq![115u8], c3, seq![115u8], seq![109u8] + (seq![1u8] + (seq![0u8] + (seq![0u8] + (seq![0u8] + (<Repeated<Section> as Encode>::spec_enc(w.0) + (e)))))));
    assert(c3 == seq![109u8] + (seq![1u8] + (seq![0u8] + (seq![0u8] + (seq![0u8] + (<Repeated<Section> as Encode>::spec_enc(w.0) + (e)))))));
    lemma_concat_cancel(seq![109u8], c4, seq![109u8], seq![1u8] + (seq![0u8] + (seq![0u8] + (seq![0u8] + (<Repeated<Section> as Encode>::spec_enc(w.0) + (e))))));
    assert(c4 == seq![1u8] + (seq![0u8] + (seq![0u8] + (seq![0u8] + (<Repeated<Section> as Encode>::spec_enc(w.0) + (e))))));
    assert(c4 == seq![1u8] + (seq![0u8] + (seq![0u8] + (seq![0u8] + (<Repeated<Section> as Encode>::spec_enc(w.0) + (e))))));
    assert(c4[0] == 1u8);
}

/// What a claimed parse of `Module` says about the bytes at this point.
#[verifier::rlimit(100)]
proof fn lemma_err_module_module_5_nobyte(buffer: Seq<u8>, c0: Seq<u8>, c1: Seq<u8>, c2: Seq<u8>, c3: Seq<u8>, c4: Seq<u8>, c5: Seq<u8>)
    requires
        <Module as Decode>::complete(),
        <Module as Decode>::dec_ok(buffer),
        c0 == buffer,
        c0 == seq![0u8] + c1,
        c1 == seq![97u8] + c2,
        c2 == seq![115u8] + c3,
        c3 == seq![109u8] + c4,
        c4 == seq![1u8] + c5,
    ensures
        c5.len() >= 1,
{
    let (w, e) = choose|w: SpecModule, e: Seq<u8>|
        <Module as Encode>::spec_wf(w) && buffer == <Module as Encode>::spec_enc(w)
            + e && <Module as Decode>::tail_stop(e);
    assert(buffer =~= seq![0u8] + (seq![97u8] + (seq![115u8] + (seq![109u8] + (seq![1u8] + (seq![0u8] + (seq![0u8] + (seq![0u8] + (<Repeated<Section> as Encode>::spec_enc(w.0) + (e))))))))));
    lemma_concat_cancel(seq![0u8], c1, seq![0u8], seq![97u8] + (seq![115u8] + (seq![109u8] + (seq![1u8] + (seq![0u8] + (seq![0u8] + (seq![0u8] + (<Repeated<Section> as Encode>::spec_enc(w.0) + (e)))))))));
    assert(c1 == seq![97u8] + (seq![115u8] + (seq![109u8] + (seq![1u8] + (seq![0u8] + (seq![0u8] + (seq![0u8] + (<Repeated<Section> as Encode>::spec_enc(w.0) + (e)))))))));
    lemma_concat_cancel(seq![97u8], c2, seq![97u8], seq![115u8] + (seq![109u8] + (seq![1u8] + (seq![0u8] + (seq![0u8] + (seq![0u8] + (<Repeated<Section> as Encode>::spec_enc(w.0) + (e))))))));
    assert(c2 == seq![115u8] + (seq![109u8] + (seq![1u8] + (seq![0u8] + (seq![0u8] + (seq![0u8] + (<Repeated<Section> as Encode>::spec_enc(w.0) + (e))))))));
    lemma_concat_cancel(seq![115u8], c3, seq![115u8], seq![109u8] + (seq![1u8] + (seq![0u8] + (seq![0u8] + (seq![0u8] + (<Repeated<Section> as Encode>::spec_enc(w.0) + (e)))))));
    assert(c3 == seq![109u8] + (seq![1u8] + (seq![0u8] + (seq![0u8] + (seq![0u8] + (<Repeated<Section> as Encode>::spec_enc(w.0) + (e)))))));
    lemma_concat_cancel(seq![109u8], c4, seq![109u8], seq![1u8] + (seq![0u8] + (seq![0u8] + (seq![0u8] + (<Repeated<Section> as Encode>::spec_enc(w.0) + (e))))));
    assert(c4 == seq![1u8] + (seq![0u8] + (seq![0u8] + (seq![0u8] + (<Repeated<Section> as Encode>::spec_enc(w.0) + (e))))));
    lemma_concat_cancel(seq![1u8], c5, seq![1u8], seq![0u8] + (seq![0u8] + (seq![0u8] + (<Repeated<Section> as Encode>::spec_enc(w.0) + (e)))));
    assert(c5 == seq![0u8] + (seq![0u8] + (seq![0u8] + (<Repeated<Section> as Encode>::spec_enc(w.0) + (e)))));
    assert(c5 == seq![0u8] + (seq![0u8] + (seq![0u8] + (<Repeated<Section> as Encode>::spec_enc(w.0) + (e)))));
    assert(c5.len() >= 1);
}

/// What a claimed parse of `Module` says about the bytes at this point.
#[verifier::rlimit(100)]
proof fn lemma_err_module_module_5_mismatch(buffer: Seq<u8>, c0: Seq<u8>, c1: Seq<u8>, c2: Seq<u8>, c3: Seq<u8>, c4: Seq<u8>, c5: Seq<u8>)
    requires
        <Module as Decode>::complete(),
        <Module as Decode>::dec_ok(buffer),
        c0 == buffer,
        c0 == seq![0u8] + c1,
        c1 == seq![97u8] + c2,
        c2 == seq![115u8] + c3,
        c3 == seq![109u8] + c4,
        c4 == seq![1u8] + c5,
    ensures
        c5.len() >= 1 && c5[0] == 0u8,
{
    let (w, e) = choose|w: SpecModule, e: Seq<u8>|
        <Module as Encode>::spec_wf(w) && buffer == <Module as Encode>::spec_enc(w)
            + e && <Module as Decode>::tail_stop(e);
    assert(buffer =~= seq![0u8] + (seq![97u8] + (seq![115u8] + (seq![109u8] + (seq![1u8] + (seq![0u8] + (seq![0u8] + (seq![0u8] + (<Repeated<Section> as Encode>::spec_enc(w.0) + (e))))))))));
    lemma_concat_cancel(seq![0u8], c1, seq![0u8], seq![97u8] + (seq![115u8] + (seq![109u8] + (seq![1u8] + (seq![0u8] + (seq![0u8] + (seq![0u8] + (<Repeated<Section> as Encode>::spec_enc(w.0) + (e)))))))));
    assert(c1 == seq![97u8] + (seq![115u8] + (seq![109u8] + (seq![1u8] + (seq![0u8] + (seq![0u8] + (seq![0u8] + (<Repeated<Section> as Encode>::spec_enc(w.0) + (e)))))))));
    lemma_concat_cancel(seq![97u8], c2, seq![97u8], seq![115u8] + (seq![109u8] + (seq![1u8] + (seq![0u8] + (seq![0u8] + (seq![0u8] + (<Repeated<Section> as Encode>::spec_enc(w.0) + (e))))))));
    assert(c2 == seq![115u8] + (seq![109u8] + (seq![1u8] + (seq![0u8] + (seq![0u8] + (seq![0u8] + (<Repeated<Section> as Encode>::spec_enc(w.0) + (e))))))));
    lemma_concat_cancel(seq![115u8], c3, seq![115u8], seq![109u8] + (seq![1u8] + (seq![0u8] + (seq![0u8] + (seq![0u8] + (<Repeated<Section> as Encode>::spec_enc(w.0) + (e)))))));
    assert(c3 == seq![109u8] + (seq![1u8] + (seq![0u8] + (seq![0u8] + (seq![0u8] + (<Repeated<Section> as Encode>::spec_enc(w.0) + (e)))))));
    lemma_concat_cancel(seq![109u8], c4, seq![109u8], seq![1u8] + (seq![0u8] + (seq![0u8] + (seq![0u8] + (<Repeated<Section> as Encode>::spec_enc(w.0) + (e))))));
    assert(c4 == seq![1u8] + (seq![0u8] + (seq![0u8] + (seq![0u8] + (<Repeated<Section> as Encode>::spec_enc(w.0) + (e))))));
    lemma_concat_cancel(seq![1u8], c5, seq![1u8], seq![0u8] + (seq![0u8] + (seq![0u8] + (<Repeated<Section> as Encode>::spec_enc(w.0) + (e)))));
    assert(c5 == seq![0u8] + (seq![0u8] + (seq![0u8] + (<Repeated<Section> as Encode>::spec_enc(w.0) + (e)))));
    assert(c5 == seq![0u8] + (seq![0u8] + (seq![0u8] + (<Repeated<Section> as Encode>::spec_enc(w.0) + (e)))));
    assert(c5[0] == 0u8);
}

/// What a claimed parse of `Module` says about the bytes at this point.
#[verifier::rlimit(100)]
proof fn lemma_err_module_module_6_nobyte(buffer: Seq<u8>, c0: Seq<u8>, c1: Seq<u8>, c2: Seq<u8>, c3: Seq<u8>, c4: Seq<u8>, c5: Seq<u8>, c6: Seq<u8>)
    requires
        <Module as Decode>::complete(),
        <Module as Decode>::dec_ok(buffer),
        c0 == buffer,
        c0 == seq![0u8] + c1,
        c1 == seq![97u8] + c2,
        c2 == seq![115u8] + c3,
        c3 == seq![109u8] + c4,
        c4 == seq![1u8] + c5,
        c5 == seq![0u8] + c6,
    ensures
        c6.len() >= 1,
{
    let (w, e) = choose|w: SpecModule, e: Seq<u8>|
        <Module as Encode>::spec_wf(w) && buffer == <Module as Encode>::spec_enc(w)
            + e && <Module as Decode>::tail_stop(e);
    assert(buffer =~= seq![0u8] + (seq![97u8] + (seq![115u8] + (seq![109u8] + (seq![1u8] + (seq![0u8] + (seq![0u8] + (seq![0u8] + (<Repeated<Section> as Encode>::spec_enc(w.0) + (e))))))))));
    lemma_concat_cancel(seq![0u8], c1, seq![0u8], seq![97u8] + (seq![115u8] + (seq![109u8] + (seq![1u8] + (seq![0u8] + (seq![0u8] + (seq![0u8] + (<Repeated<Section> as Encode>::spec_enc(w.0) + (e)))))))));
    assert(c1 == seq![97u8] + (seq![115u8] + (seq![109u8] + (seq![1u8] + (seq![0u8] + (seq![0u8] + (seq![0u8] + (<Repeated<Section> as Encode>::spec_enc(w.0) + (e)))))))));
    lemma_concat_cancel(seq![97u8], c2, seq![97u8], seq![115u8] + (seq![109u8] + (seq![1u8] + (seq![0u8] + (seq![0u8] + (seq![0u8] + (<Repeated<Section> as Encode>::spec_enc(w.0) + (e))))))));
    assert(c2 == seq![115u8] + (seq![109u8] + (seq![1u8] + (seq![0u8] + (seq![0u8] + (seq![0u8] + (<Repeated<Section> as Encode>::spec_enc(w.0) + (e))))))));
    lemma_concat_cancel(seq![115u8], c3, seq![115u8], seq![109u8] + (seq![1u8] + (seq![0u8] + (seq![0u8] + (seq![0u8] + (<Repeated<Section> as Encode>::spec_enc(w.0) + (e)))))));
    assert(c3 == seq![109u8] + (seq![1u8] + (seq![0u8] + (seq![0u8] + (seq![0u8] + (<Repeated<Section> as Encode>::spec_enc(w.0) + (e)))))));
    lemma_concat_cancel(seq![109u8], c4, seq![109u8], seq![1u8] + (seq![0u8] + (seq![0u8] + (seq![0u8] + (<Repeated<Section> as Encode>::spec_enc(w.0) + (e))))));
    assert(c4 == seq![1u8] + (seq![0u8] + (seq![0u8] + (seq![0u8] + (<Repeated<Section> as Encode>::spec_enc(w.0) + (e))))));
    lemma_concat_cancel(seq![1u8], c5, seq![1u8], seq![0u8] + (seq![0u8] + (seq![0u8] + (<Repeated<Section> as Encode>::spec_enc(w.0) + (e)))));
    assert(c5 == seq![0u8] + (seq![0u8] + (seq![0u8] + (<Repeated<Section> as Encode>::spec_enc(w.0) + (e)))));
    lemma_concat_cancel(seq![0u8], c6, seq![0u8], seq![0u8] + (seq![0u8] + (<Repeated<Section> as Encode>::spec_enc(w.0) + (e))));
    assert(c6 == seq![0u8] + (seq![0u8] + (<Repeated<Section> as Encode>::spec_enc(w.0) + (e))));
    assert(c6 == seq![0u8] + (seq![0u8] + (<Repeated<Section> as Encode>::spec_enc(w.0) + (e))));
    assert(c6.len() >= 1);
}

/// What a claimed parse of `Module` says about the bytes at this point.
#[verifier::rlimit(100)]
proof fn lemma_err_module_module_6_mismatch(buffer: Seq<u8>, c0: Seq<u8>, c1: Seq<u8>, c2: Seq<u8>, c3: Seq<u8>, c4: Seq<u8>, c5: Seq<u8>, c6: Seq<u8>)
    requires
        <Module as Decode>::complete(),
        <Module as Decode>::dec_ok(buffer),
        c0 == buffer,
        c0 == seq![0u8] + c1,
        c1 == seq![97u8] + c2,
        c2 == seq![115u8] + c3,
        c3 == seq![109u8] + c4,
        c4 == seq![1u8] + c5,
        c5 == seq![0u8] + c6,
    ensures
        c6.len() >= 1 && c6[0] == 0u8,
{
    let (w, e) = choose|w: SpecModule, e: Seq<u8>|
        <Module as Encode>::spec_wf(w) && buffer == <Module as Encode>::spec_enc(w)
            + e && <Module as Decode>::tail_stop(e);
    assert(buffer =~= seq![0u8] + (seq![97u8] + (seq![115u8] + (seq![109u8] + (seq![1u8] + (seq![0u8] + (seq![0u8] + (seq![0u8] + (<Repeated<Section> as Encode>::spec_enc(w.0) + (e))))))))));
    lemma_concat_cancel(seq![0u8], c1, seq![0u8], seq![97u8] + (seq![115u8] + (seq![109u8] + (seq![1u8] + (seq![0u8] + (seq![0u8] + (seq![0u8] + (<Repeated<Section> as Encode>::spec_enc(w.0) + (e)))))))));
    assert(c1 == seq![97u8] + (seq![115u8] + (seq![109u8] + (seq![1u8] + (seq![0u8] + (seq![0u8] + (seq![0u8] + (<Repeated<Section> as Encode>::spec_enc(w.0) + (e)))))))));
    lemma_concat_cancel(seq![97u8], c2, seq![97u8], seq![115u8] + (seq![109u8] + (seq![1u8] + (seq![0u8] + (seq![0u8] + (seq![0u8] + (<Repeated<Section> as Encode>::spec_enc(w.0) + (e))))))));
    assert(c2 == seq![115u8] + (seq![109u8] + (seq![1u8] + (seq![0u8] + (seq![0u8] + (seq![0u8] + (<Repeated<Section> as Encode>::spec_enc(w.0) + (e))))))));
    lemma_concat_cancel(seq![115u8], c3, seq![115u8], seq![109u8] + (seq![1u8] + (seq![0u8] + (seq![0u8] + (seq![0u8] + (<Repeated<Section> as Encode>::spec_enc(w.0) + (e)))))));
    assert(c3 == seq![109u8] + (seq![1u8] + (seq![0u8] + (seq![0u8] + (seq![0u8] + (<Repeated<Section> as Encode>::spec_enc(w.0) + (e)))))));
    lemma_concat_cancel(seq![109u8], c4, seq![109u8], seq![1u8] + (seq![0u8] + (seq![0u8] + (seq![0u8] + (<Repeated<Section> as Encode>::spec_enc(w.0) + (e))))));
    assert(c4 == seq![1u8] + (seq![0u8] + (seq![0u8] + (seq![0u8] + (<Repeated<Section> as Encode>::spec_enc(w.0) + (e))))));
    lemma_concat_cancel(seq![1u8], c5, seq![1u8], seq![0u8] + (seq![0u8] + (seq![0u8] + (<Repeated<Section> as Encode>::spec_enc(w.0) + (e)))));
    assert(c5 == seq![0u8] + (seq![0u8] + (seq![0u8] + (<Repeated<Section> as Encode>::spec_enc(w.0) + (e)))));
    lemma_concat_cancel(seq![0u8], c6, seq![0u8], seq![0u8] + (seq![0u8] + (<Repeated<Section> as Encode>::spec_enc(w.0) + (e))));
    assert(c6 == seq![0u8] + (seq![0u8] + (<Repeated<Section> as Encode>::spec_enc(w.0) + (e))));
    assert(c6 == seq![0u8] + (seq![0u8] + (<Repeated<Section> as Encode>::spec_enc(w.0) + (e))));
    assert(c6[0] == 0u8);
}

/// What a claimed parse of `Module` says about the bytes at this point.
#[verifier::rlimit(100)]
proof fn lemma_err_module_module_7_nobyte(buffer: Seq<u8>, c0: Seq<u8>, c1: Seq<u8>, c2: Seq<u8>, c3: Seq<u8>, c4: Seq<u8>, c5: Seq<u8>, c6: Seq<u8>, c7: Seq<u8>)
    requires
        <Module as Decode>::complete(),
        <Module as Decode>::dec_ok(buffer),
        c0 == buffer,
        c0 == seq![0u8] + c1,
        c1 == seq![97u8] + c2,
        c2 == seq![115u8] + c3,
        c3 == seq![109u8] + c4,
        c4 == seq![1u8] + c5,
        c5 == seq![0u8] + c6,
        c6 == seq![0u8] + c7,
    ensures
        c7.len() >= 1,
{
    let (w, e) = choose|w: SpecModule, e: Seq<u8>|
        <Module as Encode>::spec_wf(w) && buffer == <Module as Encode>::spec_enc(w)
            + e && <Module as Decode>::tail_stop(e);
    assert(buffer =~= seq![0u8] + (seq![97u8] + (seq![115u8] + (seq![109u8] + (seq![1u8] + (seq![0u8] + (seq![0u8] + (seq![0u8] + (<Repeated<Section> as Encode>::spec_enc(w.0) + (e))))))))));
    lemma_concat_cancel(seq![0u8], c1, seq![0u8], seq![97u8] + (seq![115u8] + (seq![109u8] + (seq![1u8] + (seq![0u8] + (seq![0u8] + (seq![0u8] + (<Repeated<Section> as Encode>::spec_enc(w.0) + (e)))))))));
    assert(c1 == seq![97u8] + (seq![115u8] + (seq![109u8] + (seq![1u8] + (seq![0u8] + (seq![0u8] + (seq![0u8] + (<Repeated<Section> as Encode>::spec_enc(w.0) + (e)))))))));
    lemma_concat_cancel(seq![97u8], c2, seq![97u8], seq![115u8] + (seq![109u8] + (seq![1u8] + (seq![0u8] + (seq![0u8] + (seq![0u8] + (<Repeated<Section> as Encode>::spec_enc(w.0) + (e))))))));
    assert(c2 == seq![115u8] + (seq![109u8] + (seq![1u8] + (seq![0u8] + (seq![0u8] + (seq![0u8] + (<Repeated<Section> as Encode>::spec_enc(w.0) + (e))))))));
    lemma_concat_cancel(seq![115u8], c3, seq![115u8], seq![109u8] + (seq![1u8] + (seq![0u8] + (seq![0u8] + (seq![0u8] + (<Repeated<Section> as Encode>::spec_enc(w.0) + (e)))))));
    assert(c3 == seq![109u8] + (seq![1u8] + (seq![0u8] + (seq![0u8] + (seq![0u8] + (<Repeated<Section> as Encode>::spec_enc(w.0) + (e)))))));
    lemma_concat_cancel(seq![109u8], c4, seq![109u8], seq![1u8] + (seq![0u8] + (seq![0u8] + (seq![0u8] + (<Repeated<Section> as Encode>::spec_enc(w.0) + (e))))));
    assert(c4 == seq![1u8] + (seq![0u8] + (seq![0u8] + (seq![0u8] + (<Repeated<Section> as Encode>::spec_enc(w.0) + (e))))));
    lemma_concat_cancel(seq![1u8], c5, seq![1u8], seq![0u8] + (seq![0u8] + (seq![0u8] + (<Repeated<Section> as Encode>::spec_enc(w.0) + (e)))));
    assert(c5 == seq![0u8] + (seq![0u8] + (seq![0u8] + (<Repeated<Section> as Encode>::spec_enc(w.0) + (e)))));
    lemma_concat_cancel(seq![0u8], c6, seq![0u8], seq![0u8] + (seq![0u8] + (<Repeated<Section> as Encode>::spec_enc(w.0) + (e))));
    assert(c6 == seq![0u8] + (seq![0u8] + (<Repeated<Section> as Encode>::spec_enc(w.0) + (e))));
    lemma_concat_cancel(seq![0u8], c7, seq![0u8], seq![0u8] + (<Repeated<Section> as Encode>::spec_enc(w.0) + (e)));
    assert(c7 == seq![0u8] + (<Repeated<Section> as Encode>::spec_enc(w.0) + (e)));
    assert(c7 == seq![0u8] + (<Repeated<Section> as Encode>::spec_enc(w.0) + (e)));
    assert(c7.len() >= 1);
}

/// What a claimed parse of `Module` says about the bytes at this point.
#[verifier::rlimit(100)]
proof fn lemma_err_module_module_7_mismatch(buffer: Seq<u8>, c0: Seq<u8>, c1: Seq<u8>, c2: Seq<u8>, c3: Seq<u8>, c4: Seq<u8>, c5: Seq<u8>, c6: Seq<u8>, c7: Seq<u8>)
    requires
        <Module as Decode>::complete(),
        <Module as Decode>::dec_ok(buffer),
        c0 == buffer,
        c0 == seq![0u8] + c1,
        c1 == seq![97u8] + c2,
        c2 == seq![115u8] + c3,
        c3 == seq![109u8] + c4,
        c4 == seq![1u8] + c5,
        c5 == seq![0u8] + c6,
        c6 == seq![0u8] + c7,
    ensures
        c7.len() >= 1 && c7[0] == 0u8,
{
    let (w, e) = choose|w: SpecModule, e: Seq<u8>|
        <Module as Encode>::spec_wf(w) && buffer == <Module as Encode>::spec_enc(w)
            + e && <Module as Decode>::tail_stop(e);
    assert(buffer =~= seq![0u8] + (seq![97u8] + (seq![115u8] + (seq![109u8] + (seq![1u8] + (seq![0u8] + (seq![0u8] + (seq![0u8] + (<Repeated<Section> as Encode>::spec_enc(w.0) + (e))))))))));
    lemma_concat_cancel(seq![0u8], c1, seq![0u8], seq![97u8] + (seq![115u8] + (seq![109u8] + (seq![1u8] + (seq![0u8] + (seq![0u8] + (seq![0u8] + (<Repeated<Section> as Encode>::spec_enc(w.0) + (e)))))))));
    assert(c1 == seq![97u8] + (seq![115u8] + (seq![109u8] + (seq![1u8] + (seq![0u8] + (seq![0u8] + (seq![0u8] + (<Repeated<Section> as Encode>::spec_enc(w.0) + (e)))))))));
    lemma_concat_cancel(seq![97u8], c2, seq![97u8], seq![115u8] + (seq![109u8] + (seq![1u8] + (seq![0u8] + (seq![0u8] + (seq![0u8] + (<Repeated<Section> as Encode>::spec_enc(w.0) + (e))))))));
    assert(c2 == seq![115u8] + (seq![109u8] + (seq![1u8] + (seq![0u8] + (seq![0u8] + (seq![0u8] + (<Repeated<Section> as Encode>::spec_enc(w.0) + (e))))))));
    lemma_concat_cancel(seq![115u8], c3, seq![115u8], seq![109u8] + (seq![1u8] + (seq![0u8] + (seq![0u8] + (seq![0u8] + (<Repeated<Section> as Encode>::spec_enc(w.0) + (e)))))));
    assert(c3 == seq![109u8] + (seq![1u8] + (seq![0u8] + (seq![0u8] + (seq![0u8] + (<Repeated<Section> as Encode>::spec_enc(w.0) + (e)))))));
    lemma_concat_cancel(seq![109u8], c4, seq![109u8], seq![1u8] + (seq![0u8] + (seq![0u8] + (seq![0u8] + (<Repeated<Section> as Encode>::spec_enc(w.0) + (e))))));
    assert(c4 == seq![1u8] + (seq![0u8] + (seq![0u8] + (seq![0u8] + (<Repeated<Section> as Encode>::spec_enc(w.0) + (e))))));
    lemma_concat_cancel(seq![1u8], c5, seq![1u8], seq![0u8] + (seq![0u8] + (seq![0u8] + (<Repeated<Section> as Encode>::spec_enc(w.0) + (e)))));
    assert(c5 == seq![0u8] + (seq![0u8] + (seq![0u8] + (<Repeated<Section> as Encode>::spec_enc(w.0) + (e)))));
    lemma_concat_cancel(seq![0u8], c6, seq![0u8], seq![0u8] + (seq![0u8] + (<Repeated<Section> as Encode>::spec_enc(w.0) + (e))));
    assert(c6 == seq![0u8] + (seq![0u8] + (<Repeated<Section> as Encode>::spec_enc(w.0) + (e))));
    lemma_concat_cancel(seq![0u8], c7, seq![0u8], seq![0u8] + (<Repeated<Section> as Encode>::spec_enc(w.0) + (e)));
    assert(c7 == seq![0u8] + (<Repeated<Section> as Encode>::spec_enc(w.0) + (e)));
    assert(c7 == seq![0u8] + (<Repeated<Section> as Encode>::spec_enc(w.0) + (e)));
    assert(c7[0] == 0u8);
}

/// What a claimed parse of `Module` says about the bytes at this point.
#[verifier::rlimit(100)]
proof fn lemma_err_module_module_8_fail(buffer: Seq<u8>, c0: Seq<u8>, c1: Seq<u8>, c2: Seq<u8>, c3: Seq<u8>, c4: Seq<u8>, c5: Seq<u8>, c6: Seq<u8>, c7: Seq<u8>, c8: Seq<u8>)
    requires
        <Module as Decode>::complete(),
        <Module as Decode>::dec_ok(buffer),
        c0 == buffer,
        c0 == seq![0u8] + c1,
        c1 == seq![97u8] + c2,
        c2 == seq![115u8] + c3,
        c3 == seq![109u8] + c4,
        c4 == seq![1u8] + c5,
        c5 == seq![0u8] + c6,
        c6 == seq![0u8] + c7,
        c7 == seq![0u8] + c8,
    ensures
        <Repeated<Section> as Decode>::dec_ok(c8),
{
    let (w, e) = choose|w: SpecModule, e: Seq<u8>|
        <Module as Encode>::spec_wf(w) && buffer == <Module as Encode>::spec_enc(w)
            + e && <Module as Decode>::tail_stop(e);
    assert(buffer =~= seq![0u8] + (seq![97u8] + (seq![115u8] + (seq![109u8] + (seq![1u8] + (seq![0u8] + (seq![0u8] + (seq![0u8] + (<Repeated<Section> as Encode>::spec_enc(w.0) + (e))))))))));
    lemma_concat_cancel(seq![0u8], c1, seq![0u8], seq![97u8] + (seq![115u8] + (seq![109u8] + (seq![1u8] + (seq![0u8] + (seq![0u8] + (seq![0u8] + (<Repeated<Section> as Encode>::spec_enc(w.0) + (e)))))))));
    assert(c1 == seq![97u8] + (seq![115u8] + (seq![109u8] + (seq![1u8] + (seq![0u8] + (seq![0u8] + (seq![0u8] + (<Repeated<Section> as Encode>::spec_enc(w.0) + (e)))))))));
    lemma_concat_cancel(seq![97u8], c2, seq![97u8], seq![115u8] + (seq![109u8] + (seq![1u8] + (seq![0u8] + (seq![0u8] + (seq![0u8] + (<Repeated<Section> as Encode>::spec_enc(w.0) + (e))))))));
    assert(c2 == seq![115u8] + (seq![109u8] + (seq![1u8] + (seq![0u8] + (seq![0u8] + (seq![0u8] + (<Repeated<Section> as Encode>::spec_enc(w.0) + (e))))))));
    lemma_concat_cancel(seq![115u8], c3, seq![115u8], seq![109u8] + (seq![1u8] + (seq![0u8] + (seq![0u8] + (seq![0u8] + (<Repeated<Section> as Encode>::spec_enc(w.0) + (e)))))));
    assert(c3 == seq![109u8] + (seq![1u8] + (seq![0u8] + (seq![0u8] + (seq![0u8] + (<Repeated<Section> as Encode>::spec_enc(w.0) + (e)))))));
    lemma_concat_cancel(seq![109u8], c4, seq![109u8], seq![1u8] + (seq![0u8] + (seq![0u8] + (seq![0u8] + (<Repeated<Section> as Encode>::spec_enc(w.0) + (e))))));
    assert(c4 == seq![1u8] + (seq![0u8] + (seq![0u8] + (seq![0u8] + (<Repeated<Section> as Encode>::spec_enc(w.0) + (e))))));
    lemma_concat_cancel(seq![1u8], c5, seq![1u8], seq![0u8] + (seq![0u8] + (seq![0u8] + (<Repeated<Section> as Encode>::spec_enc(w.0) + (e)))));
    assert(c5 == seq![0u8] + (seq![0u8] + (seq![0u8] + (<Repeated<Section> as Encode>::spec_enc(w.0) + (e)))));
    lemma_concat_cancel(seq![0u8], c6, seq![0u8], seq![0u8] + (seq![0u8] + (<Repeated<Section> as Encode>::spec_enc(w.0) + (e))));
    assert(c6 == seq![0u8] + (seq![0u8] + (<Repeated<Section> as Encode>::spec_enc(w.0) + (e))));
    lemma_concat_cancel(seq![0u8], c7, seq![0u8], seq![0u8] + (<Repeated<Section> as Encode>::spec_enc(w.0) + (e)));
    assert(c7 == seq![0u8] + (<Repeated<Section> as Encode>::spec_enc(w.0) + (e)));
    lemma_concat_cancel(seq![0u8], c8, seq![0u8], <Repeated<Section> as Encode>::spec_enc(w.0) + (e));
    assert(c8 == <Repeated<Section> as Encode>::spec_enc(w.0) + (e));
    assert(c8 == <Repeated<Section> as Encode>::spec_enc(w.0) + (e));
    <Repeated<Section> as Decode>::lemma_covers(w.0, e);
    assert(<Repeated<Section> as Decode>::dec_ok(c8));
}


/// Law: a buffer a module can be decoded from starts with the fixed magic
/// and version bytes `00 61 73 6D 01 00 00 00`; any buffer whose first
/// eight bytes differ fails to decode as a module.
pub proof fn lemma_module_magic(s: Seq<u8>)
    requires
        <Module as Decode>::dec_ok(s),
    ensures
        s.len() >= 8,
        s[0] == 0x00 && s[1] == 0x61 && s[2] == 0x73 && s[3] == 0x6D,
        s[4] == 0x01 && s[5] == 0x00 && s[6] == 0x00 && s[7] == 0x00,
{
    let (w, e) = choose|w: SpecModule, e: Seq<u8>|
        <Module as Encode>::spec_wf(w) && s == <Module as Encode>::spec_enc(w) + e
            && <Module as Decode>::tail_stop(e);
    assert(s =~= seq![0u8] + (seq![97u8] + (seq![115u8] + (seq![109u8] + (seq![1u8] + (seq![0u8]
        + (seq![0u8] + (seq![0u8] + (enc_seq::<Section>(w.0) + e)))))))));
}

} // verus!

