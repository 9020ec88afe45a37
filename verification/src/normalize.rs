use vstd::prelude::*;

verus! {

/// `true` when the bytes carry the wasm preamble of the composable
/// (component) encoding: the magic `\0asm` in bytes 0..4, and the layer
/// field in bytes 6..8 equal to 1 — a core module carries layer 0
/// there.
pub open spec fn is_component_encoded(b: Seq<u8>) -> bool {
    b.len() >= 8 && b[0] == 0u8 && b[1] == 0x61u8 && b[2] == 0x73u8 && b[3] == 0x6du8 && b[6]
        == 1u8 && b[7] == 0u8
}

/// Whether the bytes are already in the composable encoding.
pub fn component_encoded(bytes: &Vec<u8>) -> (r: bool)
    ensures
        r == is_component_encoded(bytes@),
{
    if bytes.len() < 8 {
        return false;
    }
    bytes[0] == 0 && bytes[1] == 0x61 && bytes[2] == 0x73 && bytes[3] == 0x6d && bytes[6] == 1
        && bytes[7] == 0
}

/// The composable encoding of a core wasm module. The value is not
/// stated here: it is whatever the componentization engine produces, a
/// function of the module bytes alone.
pub uninterp spec fn componentized(b: Seq<u8>) -> Seq<u8>;

/// Relies on wit-component's `ComponentEncoder`: with default options
/// it wraps one core module into a component, deterministically from
/// the module bytes alone, and fails on bytes that are not a valid
/// core module.
#[verifier::external_body]
fn encode_component(bytes: &Vec<u8>) -> (r: Result<Vec<u8>, Vec<u8>>)
    ensures
        r matches Ok(c) ==> c@ == componentized(bytes@),
{
    let mut enc = wit_component::ComponentEncoder::default();
    let enc = match enc.module(bytes.as_slice()) {
        Ok(e) => e,
        Err(e) => return Err(format!("{e:#}").into_bytes()),
    };
    match enc.encode() {
        Ok(c) => Ok(c),
        Err(e) => Err(format!("{e:#}").into_bytes()),
    }
}

/// What successful normalization yields: bytes already in the
/// composable encoding pass through unchanged, a core module is wrapped
/// by the componentization engine.
pub open spec fn normalize_spec(b: Seq<u8>) -> Seq<u8> {
    if is_component_encoded(b) {
        b
    } else {
        componentized(b)
    }
}

/// Promote raw module bytes to the composable encoding when needed.
/// Bytes already in composable-encoded form come back byte-identical,
/// and the call cannot fail on them: normalization is idempotent. On
/// other bytes the componentization engine runs and may reject them;
/// the error carries its message.
pub fn normalize_source(bytes: Vec<u8>) -> (r: Result<Vec<u8>, Vec<u8>>)
    ensures
        r matches Ok(c) ==> c@ == normalize_spec(bytes@),
        is_component_encoded(bytes@) ==> (r matches Ok(c) && c@ == bytes@),
        r matches Err(_) ==> !is_component_encoded(bytes@),
{
    if component_encoded(&bytes) {
        Ok(bytes)
    } else {
        encode_component(&bytes)
    }
}

} // verus!
