//! Bitcoin script assembly through the `bitcoin` crate's script builder.
use vstd::prelude::*;
use bitcoin::script::{Builder, PushBytesBuf, PushBytesError};

verus! {

#[verifier::external_type_specification]
#[verifier::external_body]
pub struct ExBuilder(Builder);

#[verifier::external_type_specification]
#[verifier::external_body]
pub struct ExPushBytesBuf(PushBytesBuf);

#[verifier::external_type_specification]
#[verifier::external_body]
pub struct ExPushBytesError(PushBytesError);

/// The script bytes a `bitcoin::script::Builder` holds so far.
pub uninterp spec fn builder_bytes(b: Builder) -> Seq<u8>;

/// The bytes a `bitcoin::script::PushBytesBuf` holds.
pub uninterp spec fn push_bytes_contents(p: PushBytesBuf) -> Seq<u8>;

/// `OP_RETURN`.
pub const OP_RETURN: u8 = 0x6a;
/// `OP_PUSHNUM_13`, the runestone marker.
pub const OP_PUSHNUM_13: u8 = 0x5d;
/// `OP_PUSHDATA1`.
pub const OP_PUSHDATA1: u8 = 0x4c;
/// `OP_PUSHDATA2`.
pub const OP_PUSHDATA2: u8 = 0x4d;
/// `OP_PUSHDATA4`.
pub const OP_PUSHDATA4: u8 = 0x4e;
/// `OP_CHECKSIG`.
pub const OP_CHECKSIG: u8 = 0xac;

/// Largest data push a script can hold is below this many bytes.
pub open spec fn push_limit() -> int {
    0x1_0000_0000
}

/// The opcode (and length bytes) that announce a data push of `n` bytes.
pub open spec fn push_prefix(n: nat) -> Seq<u8> {
    if n < 0x4c {
        seq![n as u8]
    } else if n < 0x100 {
        seq![OP_PUSHDATA1, n as u8]
    } else if n < 0x1_0000 {
        seq![OP_PUSHDATA2, (n % 0x100) as u8, (n / 0x100) as u8]
    } else {
        seq![
            OP_PUSHDATA4,
            (n % 0x100) as u8,
            ((n / 0x100) % 0x100) as u8,
            ((n / 0x1_0000) % 0x100) as u8,
            (n / 0x100_0000) as u8,
        ]
    }
}

/// A single data push of `data`.
pub open spec fn push_data(data: Seq<u8>) -> Seq<u8> {
    push_prefix(data.len()) + data
}

/// `bitcoin::script::Builder::new`: a builder holding the empty script.
#[verifier::external_body]
pub(crate) fn builder_new() -> (b: Builder)
    ensures
        builder_bytes(b) == Seq::<u8>::empty(),
{
    Builder::new()
}

/// `bitcoin::script::Builder::push_opcode`: appends the opcode byte.
#[verifier::external_body]
pub(crate) fn builder_push_opcode(b: Builder, opcode: u8) -> (r: Builder)
    ensures
        builder_bytes(r) == builder_bytes(b).push(opcode),
{
    b.push_opcode(bitcoin::opcodes::Opcode::from(opcode))
}

/// `bitcoin::script::Builder::push_slice`: appends a data push (length prefix, then
/// the bytes). It panics on 2^32 bytes or more, which a `PushBytesBuf` never holds.
#[verifier::external_body]
pub(crate) fn builder_push_slice(b: Builder, data: &PushBytesBuf) -> (r: Builder)
    requires
        push_bytes_contents(*data).len() < push_limit(),
    ensures
        builder_bytes(r) == builder_bytes(b) + push_data(push_bytes_contents(*data)),
{
    b.push_slice(data)
}

/// `bitcoin::script::Builder::into_script`, taken as its bytes.
#[verifier::external_body]
pub(crate) fn builder_into_script(b: Builder) -> (r: Vec<u8>)
    ensures
        r@ == builder_bytes(b),
{
    b.into_script().into_bytes()
}

/// `bitcoin::script::PushBytesBuf::new`: an empty buffer.
#[verifier::external_body]
pub(crate) fn push_bytes_new() -> (p: PushBytesBuf)
    ensures
        push_bytes_contents(p) == Seq::<u8>::empty(),
{
    PushBytesBuf::new()
}

/// `bitcoin::script::PushBytesBuf::extend_from_slice`: appends `bytes` unless the
/// buffer would reach 2^32 bytes, in which case it fails and leaves the buffer as it was.
/// Only filling an empty buffer is relied on (so the result never outgrows the slice).
#[verifier::external_body]
pub(crate) fn push_bytes_extend(buf: &mut PushBytesBuf, bytes: &[u8]) -> (r: Result<
    (),
    PushBytesError,
>)
    requires
        push_bytes_contents(*old(buf)).len() == 0,
    ensures
        r is Ok <==> push_bytes_contents(*old(buf)).len() + bytes@.len() < push_limit(),
        r is Ok ==> push_bytes_contents(*final(buf)) == push_bytes_contents(*old(buf)) + bytes@,
        r is Err ==> push_bytes_contents(*final(buf)) == push_bytes_contents(*old(buf)),
{
    buf.extend_from_slice(bytes)
}

} // verus!
