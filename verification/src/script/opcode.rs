//! The opcodes of the script language and the byte each one is written as.
use vstd::prelude::*;

verus! {

/// An instruction of the script language.
#[derive(Clone, Copy, Debug, PartialEq, Eq)]
pub enum Opcode {
    Op0,
    OpPushdata1,
    OpPushdata2,
    OpPushdata4,
    Op1,
    Op2,
    Op3,
    Op4,
    Op5,
    Op6,
    Op7,
    Op8,
    Op9,
    Op10,
    Op11,
    Op12,
    Op13,
    Op14,
    Op15,
    Op16,
    OpNop,
    OpIf,
    OpNotIf,
    OpElse,
    OpEndIf,
    OpVerify,
    OpReturn,
    OpToAltStack,
    OpFromAltStack,
    Op2Drop,
    Op2Dup,
    Op3Dup,
    Op2Over,
    Op2Rot,
    Op2Swap,
    OpDrop,
    OpDup,
    OpNip,
    OpOver,
    OpPick,
    OpRoll,
    OpRot,
    OpSwap,
    OpTuck,
    OpCat,
    OpSubStr,
    OpLeft,
    OpRight,
    OpSize,
    OpInvert,
    OpAnd,
    OpOr,
    OpXor,
    OpEqual,
    OpEqualverify,
    OpRipemd160,
    OpSha1,
    OpSha256,
    OpHash160,
    OpHash256,
    OpCodeSeparator,
    OpCheckSig,
    OpCheckSigVerify,
    OpCheckMultiSig,
    OpCheckMultiSigVerify,
    OpCheckLockTimeVerify,
    OpCheckSequenceVerify,
    OpInvalidOpcode,
    /// A byte that names no instruction.
    Unassigned,
}

/// The instruction a byte stands for.
pub open spec fn spec_opcode(b: u8) -> Opcode {
    if b == 0x00 {
        Opcode::Op0
    } else if b == 0x4c {
        Opcode::OpPushdata1
    } else if b == 0x4d {
        Opcode::OpPushdata2
    } else if b == 0x4e {
        Opcode::OpPushdata4
    } else if b == 0x51 {
        Opcode::Op1
    } else if b == 0x52 {
        Opcode::Op2
    } else if b == 0x53 {
        Opcode::Op3
    } else if b == 0x54 {
        Opcode::Op4
    } else if b == 0x55 {
        Opcode::Op5
    } else if b == 0x56 {
        Opcode::Op6
    } else if b == 0x57 {
        Opcode::Op7
    } else if b == 0x58 {
        Opcode::Op8
    } else if b == 0x59 {
        Opcode::Op9
    } else if b == 0x5a {
        Opcode::Op10
    } else if b == 0x5b {
        Opcode::Op11
    } else if b == 0x5c {
        Opcode::Op12
    } else if b == 0x5d {
        Opcode::Op13
    } else if b == 0x5e {
        Opcode::Op14
    } else if b == 0x5f {
        Opcode::Op15
    } else if b == 0x60 {
        Opcode::Op16
    } else if b == 0x61 {
        Opcode::OpNop
    } else if b == 0x63 {
        Opcode::OpIf
    } else if b == 0x64 {
        Opcode::OpNotIf
    } else if b == 0x67 {
        Opcode::OpElse
    } else if b == 0x68 {
        Opcode::OpEndIf
    } else if b == 0x69 {
        Opcode::OpVerify
    } else if b == 0x6a {
        Opcode::OpReturn
    } else if b == 0x6b {
        Opcode::OpToAltStack
    } else if b == 0x6c {
        Opcode::OpFromAltStack
    } else if b == 0x6d {
        Opcode::Op2Drop
    } else if b == 0x6e {
        Opcode::Op2Dup
    } else if b == 0x6f {
        Opcode::Op3Dup
    } else if b == 0x70 {
        Opcode::Op2Over
    } else if b == 0x71 {
        Opcode::Op2Rot
    } else if b == 0x72 {
        Opcode::Op2Swap
    } else if b == 0x75 {
        Opcode::OpDrop
    } else if b == 0x76 {
        Opcode::OpDup
    } else if b == 0x77 {
        Opcode::OpNip
    } else if b == 0x78 {
        Opcode::OpOver
    } else if b == 0x79 {
        Opcode::OpPick
    } else if b == 0x7a {
        Opcode::OpRoll
    } else if b == 0x7b {
        Opcode::OpRot
    } else if b == 0x7c {
        Opcode::OpSwap
    } else if b == 0x7d {
        Opcode::OpTuck
    } else if b == 0x7e {
        Opcode::OpCat
    } else if b == 0x7f {
        Opcode::OpSubStr
    } else if b == 0x80 {
        Opcode::OpLeft
    } else if b == 0x81 {
        Opcode::OpRight
    } else if b == 0x82 {
        Opcode::OpSize
    } else if b == 0x83 {
        Opcode::OpInvert
    } else if b == 0x84 {
        Opcode::OpAnd
    } else if b == 0x85 {
        Opcode::OpOr
    } else if b == 0x86 {
        Opcode::OpXor
    } else if b == 0x87 {
        Opcode::OpEqual
    } else if b == 0x88 {
        Opcode::OpEqualverify
    } else if b == 0xa6 {
        Opcode::OpRipemd160
    } else if b == 0xa7 {
        Opcode::OpSha1
    } else if b == 0xa8 {
        Opcode::OpSha256
    } else if b == 0xa9 {
        Opcode::OpHash160
    } else if b == 0xaa {
        Opcode::OpHash256
    } else if b == 0xab {
        Opcode::OpCodeSeparator
    } else if b == 0xac {
        Opcode::OpCheckSig
    } else if b == 0xad {
        Opcode::OpCheckSigVerify
    } else if b == 0xae {
        Opcode::OpCheckMultiSig
    } else if b == 0xaf {
        Opcode::OpCheckMultiSigVerify
    } else if b == 0xb1 {
        Opcode::OpCheckLockTimeVerify
    } else if b == 0xb2 {
        Opcode::OpCheckSequenceVerify
    } else if b == 0xff {
        Opcode::OpInvalidOpcode
    } else {
        Opcode::Unassigned
    }
}

impl Opcode {
    /// The instruction a byte stands for.
    pub fn from_byte(b: u8) -> (r: Opcode)
        ensures
            r == spec_opcode(b),
    {
        if b == 0x00 {
            Opcode::Op0
        } else if b == 0x4c {
            Opcode::OpPushdata1
        } else if b == 0x4d {
            Opcode::OpPushdata2
        } else if b == 0x4e {
            Opcode::OpPushdata4
        } else if b == 0x51 {
            Opcode::Op1
        } else if b == 0x52 {
            Opcode::Op2
        } else if b == 0x53 {
            Opcode::Op3
        } else if b == 0x54 {
            Opcode::Op4
        } else if b == 0x55 {
            Opcode::Op5
        } else if b == 0x56 {
            Opcode::Op6
        } else if b == 0x57 {
            Opcode::Op7
        } else if b == 0x58 {
            Opcode::Op8
        } else if b == 0x59 {
            Opcode::Op9
        } else if b == 0x5a {
            Opcode::Op10
        } else if b == 0x5b {
            Opcode::Op11
        } else if b == 0x5c {
            Opcode::Op12
        } else if b == 0x5d {
            Opcode::Op13
        } else if b == 0x5e {
            Opcode::Op14
        } else if b == 0x5f {
            Opcode::Op15
        } else if b == 0x60 {
            Opcode::Op16
        } else if b == 0x61 {
            Opcode::OpNop
        } else if b == 0x63 {
            Opcode::OpIf
        } else if b == 0x64 {
            Opcode::OpNotIf
        } else if b == 0x67 {
            Opcode::OpElse
        } else if b == 0x68 {
            Opcode::OpEndIf
        } else if b == 0x69 {
            Opcode::OpVerify
        } else if b == 0x6a {
            Opcode::OpReturn
        } else if b == 0x6b {
            Opcode::OpToAltStack
        } else if b == 0x6c {
            Opcode::OpFromAltStack
        } else if b == 0x6d {
            Opcode::Op2Drop
        } else if b == 0x6e {
            Opcode::Op2Dup
        } else if b == 0x6f {
            Opcode::Op3Dup
        } else if b == 0x70 {
            Opcode::Op2Over
        } else if b == 0x71 {
            Opcode::Op2Rot
        } else if b == 0x72 {
            Opcode::Op2Swap
        } else if b == 0x75 {
            Opcode::OpDrop
        } else if b == 0x76 {
            Opcode::OpDup
        } else if b == 0x77 {
            Opcode::OpNip
        } else if b == 0x78 {
            Opcode::OpOver
        } else if b == 0x79 {
            Opcode::OpPick
        } else if b == 0x7a {
            Opcode::OpRoll
        } else if b == 0x7b {
            Opcode::OpRot
        } else if b == 0x7c {
            Opcode::OpSwap
        } else if b == 0x7d {
            Opcode::OpTuck
        } else if b == 0x7e {
            Opcode::OpCat
        } else if b == 0x7f {
            Opcode::OpSubStr
        } else if b == 0x80 {
            Opcode::OpLeft
        } else if b == 0x81 {
            Opcode::OpRight
        } else if b == 0x82 {
            Opcode::OpSize
        } else if b == 0x83 {
            Opcode::OpInvert
        } else if b == 0x84 {
            Opcode::OpAnd
        } else if b == 0x85 {
            Opcode::OpOr
        } else if b == 0x86 {
            Opcode::OpXor
        } else if b == 0x87 {
            Opcode::OpEqual
        } else if b == 0x88 {
            Opcode::OpEqualverify
        } else if b == 0xa6 {
            Opcode::OpRipemd160
        } else if b == 0xa7 {
            Opcode::OpSha1
        } else if b == 0xa8 {
            Opcode::OpSha256
        } else if b == 0xa9 {
            Opcode::OpHash160
        } else if b == 0xaa {
            Opcode::OpHash256
        } else if b == 0xab {
            Opcode::OpCodeSeparator
        } else if b == 0xac {
            Opcode::OpCheckSig
        } else if b == 0xad {
            Opcode::OpCheckSigVerify
        } else if b == 0xae {
            Opcode::OpCheckMultiSig
        } else if b == 0xaf {
            Opcode::OpCheckMultiSigVerify
        } else if b == 0xb1 {
            Opcode::OpCheckLockTimeVerify
        } else if b == 0xb2 {
            Opcode::OpCheckSequenceVerify
        } else if b == 0xff {
            Opcode::OpInvalidOpcode
        } else {
            Opcode::Unassigned
        }
    }
}

} // verus!
