//! Two-phase JSON validation of captured payloads.
//!
//! The fast path is a streaming structural check that discards content
//! as it verifies well-formedness, so a large payload is never held in
//! memory merely to confirm validity. Only when the streaming check
//! rejects — or when the payload's shape is one the checker cannot
//! finish on, see [`minus_zero_prefixed`] — is a full,
//! memory-materializing parse run, to decide validity and, on
//! rejection, to obtain a precise human-readable diagnostic.

use vstd::prelude::*;

verus! {

/// Whether the streaming structural checker accepts these bytes as
/// well-formed JSON.
pub uninterp spec fn checker_accepts(s: Seq<u8>) -> bool;

/// Whether the full parser accepts these bytes as well-formed JSON.
pub uninterp spec fn parser_accepts(s: Seq<u8>) -> bool;

/// The diagnostic the full parser reports for bytes it rejects.
pub uninterp spec fn parse_diagnostic(s: Seq<u8>) -> Seq<char>;

/// A byte of JSON's inter-token whitespace.
pub open spec fn spec_is_json_ws(b: u8) -> bool {
    b == 0x20 || b == 0x09 || b == 0x0a || b == 0x0d
}

/// The payload's first non-whitespace byte is a minus sign followed
/// immediately by a zero digit: a top-level number such as `-0.5`.
/// The streaming checker cannot finish on this shape (it panics on
/// the accepted ones), so such payloads bypass it and are decided by
/// the full parse alone.
pub open spec fn minus_zero_prefixed(s: Seq<u8>) -> bool
    decreases s.len(),
{
    if s.len() < 2 {
        false
    } else if spec_is_json_ws(s[0]) {
        minus_zero_prefixed(s.subrange(1, s.len() as int))
    } else {
        s[0] == 0x2d && s[1] == 0x30
    }
}

/// A payload is taken as valid when the streaming checker accepts it
/// on its safe domain, or when the full parser accepts it.
pub open spec fn spec_payload_valid(s: Seq<u8>) -> bool {
    (!minus_zero_prefixed(s) && checker_accepts(s)) || parser_accepts(s)
}

/// Which phase of the two-phase check concluded that a payload is
/// valid; `Streaming` means the fallback parse was never invoked.
#[derive(Clone, Copy, PartialEq, Eq, Structural, Debug)]
pub enum ValidationPass {
    Streaming,
    Fallback,
}

/// Decides whether the payload starts, after optional whitespace,
/// with a minus sign immediately followed by a zero digit.
fn minus_zero_prefix(bytes: &Vec<u8>) -> (r: bool)
    ensures
        r == minus_zero_prefixed(bytes@),
{
    let n = bytes.len();
    proof {
        assert(bytes@.subrange(0, n as int) =~= bytes@);
    }
    let mut i: usize = 0;
    while i < n
        invariant
            0 <= i <= n,
            n == bytes@.len(),
            minus_zero_prefixed(bytes@) == minus_zero_prefixed(
                bytes@.subrange(i as int, n as int),
            ),
        decreases n - i,
    {
        let b = bytes[i];
        if b == 0x20 || b == 0x09 || b == 0x0a || b == 0x0d {
            proof {
                let suf = bytes@.subrange(i as int, n as int);
                if suf.len() >= 2 {
                    assert(suf.subrange(1, suf.len() as int) =~= bytes@.subrange(
                        i + 1,
                        n as int,
                    ));
                }
            }
            i += 1;
        } else {
            if b == 0x2d && i + 1 < n {
                let z = bytes[i + 1];
                proof {
                    let suf = bytes@.subrange(i as int, n as int);
                    assert(suf[0] == b && suf[1] == bytes@[i + 1]);
                }
                return z == 0x30;
            }
            proof {
                let suf = bytes@.subrange(i as int, n as int);
                assert(suf[0] == b);
            }
            return false;
        }
    }
    false
}

/// Relies on `oxidized_json_checker::validate_bytes`: it runs the
/// streaming grammar over the byte slice and accepts or rejects it;
/// the outcome depends on the bytes alone. Its `finish` step panics on
/// accepted top-level numbers that begin minus-then-zero (the grammar
/// never records an outer type along that path), so those payloads
/// are excluded here by `requires` and never reach the call.
#[verifier::external_body]
fn streaming_check(bytes: &Vec<u8>) -> (r: bool)
    requires
        !minus_zero_prefixed(bytes@),
    ensures
        r == checker_accepts(bytes@),
{
    oxidized_json_checker::validate_bytes(bytes.as_slice()).is_ok()
}

/// Relies on `serde_json::from_slice`: it parses the byte slice as a
/// JSON document, deterministically in the bytes, and on rejection its
/// error displays a non-empty message naming the syntax fault and its
/// position.
#[verifier::external_body]
fn full_parse(bytes: &Vec<u8>) -> (r: Result<(), String>)
    ensures
        r is Ok <==> parser_accepts(bytes@),
        r matches Err(m) ==> m@ == parse_diagnostic(bytes@) && m@.len() > 0,
{
    match serde_json::from_slice::<serde_json::Value>(bytes.as_slice()) {
        Ok(_) => Ok(()),
        Err(e) => Err(format!("{}", e)),
    }
}

/// The two-phase validity check: a streaming structural check first —
/// skipped for the minus-zero-prefixed payloads it cannot finish on —
/// and otherwise only on its rejection a full parse, whose rejection
/// carries the precise diagnostic.
pub fn validate_payload(bytes: &Vec<u8>) -> (r: Result<ValidationPass, String>)
    ensures
        r is Ok <==> spec_payload_valid(bytes@),
        r == Ok::<ValidationPass, String>(ValidationPass::Streaming) <==> !minus_zero_prefixed(
            bytes@,
        ) && checker_accepts(bytes@),
        r matches Err(m) ==> m@ == parse_diagnostic(bytes@) && m@.len() > 0,
{
    if !minus_zero_prefix(bytes) && streaming_check(bytes) {
        Ok(ValidationPass::Streaming)
    } else {
        match full_parse(bytes) {
            Ok(()) => Ok(ValidationPass::Fallback),
            Err(m) => Err(m),
        }
    }
}

} // verus!
