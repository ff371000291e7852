//! Module artifacts: the content hash returned on deploy and the naming
//! scheme that ties a module key to its blob in the object store.

use vstd::prelude::*;

verus! {

/// The 256-bit BLAKE3 digest of a byte string. The digest is far too long to
/// state here; it is a pure function of the bytes alone, which is all the
/// callers rely on.
pub uninterp spec fn blake3_digest(bytes: Seq<u8>) -> Seq<u8>;

/// Relies on `blake3::hash`: the returned digest is 32 bytes long and
/// depends on the input bytes alone.
#[verifier::external_body]
fn blake3_hash(bytes: &Vec<u8>) -> (r: Vec<u8>)
    ensures
        r@ == blake3_digest(bytes@),
        r@.len() == 32,
{
    blake3::hash(bytes.as_slice()).as_bytes().to_vec()
}

/// Lower-case hex digit for one value below 16.
pub open spec fn hex_digit(n: int) -> u8 {
    if n < 10 {
        (48 + n) as u8
    } else {
        (87 + n) as u8
    }
}

/// Lower-case hex rendering of a byte string, two digits per byte.
pub open spec fn hex_of(bytes: Seq<u8>) -> Seq<u8>
    decreases bytes.len(),
{
    if bytes.len() == 0 {
        Seq::empty()
    } else {
        hex_of(bytes.drop_last()) + seq![
            hex_digit(bytes.last() as int / 16),
            hex_digit(bytes.last() as int % 16),
        ]
    }
}

fn hex_digit_byte(n: u8) -> (r: u8)
    requires
        n < 16,
    ensures
        r == hex_digit(n as int),
{
    if n < 10 {
        48 + n
    } else {
        87 + n
    }
}

/// Render a byte string as lower-case hex text.
pub fn hex_encode(bytes: &Vec<u8>) -> (r: Vec<u8>)
    ensures
        r@ == hex_of(bytes@),
        r@.len() == 2 * bytes@.len(),
{
    let mut out: Vec<u8> = Vec::new();
    let mut i: usize = 0;
    while i < bytes.len()
        invariant
            i <= bytes@.len(),
            out@ == hex_of(bytes@.take(i as int)),
            out@.len() == 2 * i,
        decreases bytes@.len() - i,
    {
        let b = bytes[i];
        out.push(hex_digit_byte(b / 16));
        out.push(hex_digit_byte(b % 16));
        i = i + 1;
        proof {
            let taken = bytes@.take(i as int);
            assert(taken.drop_last() =~= bytes@.take(i - 1));
            assert(taken.last() == bytes@[i - 1]);
        }
    }
    proof {
        assert(bytes@.take(bytes@.len() as int) =~= bytes@);
    }
    out
}

/// The hash text returned to a deploying client: the BLAKE3 digest of the
/// artifact bytes, rendered as 64 lower-case hex digits.
pub open spec fn artifact_hash_hex(bytes: Seq<u8>) -> Seq<u8> {
    hex_of(blake3_digest(bytes))
}

/// Hash a module artifact for the deploy response.
pub fn module_hash_hex(bytes: &Vec<u8>) -> (r: Vec<u8>)
    ensures
        r@ == artifact_hash_hex(bytes@),
        r@.len() == 64,
{
    let digest = blake3_hash(bytes);
    hex_encode(&digest)
}

/// Hash determinism: identical artifact bytes always yield the identical
/// hash text in the deploy response.
pub proof fn lemma_hash_deterministic(a: Seq<u8>, b: Seq<u8>)
    requires
        a == b,
    ensures
        artifact_hash_hex(a) == artifact_hash_hex(b),
{
}

/// The suffix every blob name in the object store carries: `.wasm`.
pub open spec fn wasm_suffix() -> Seq<u8> {
    seq![46u8, 119u8, 97u8, 115u8, 109u8]
}

/// Whether a byte string ends in the blob suffix.
pub open spec fn ends_with_wasm(s: Seq<u8>) -> bool {
    s.len() >= 5 && s.skip(s.len() - 5) == wasm_suffix()
}

/// The blob name a key is persisted under: the key with `.wasm` appended.
pub open spec fn blob_name_of_key(key: Seq<u8>) -> Seq<u8> {
    key + wasm_suffix()
}

/// The key recovered from a blob name on startup: the `.wasm` suffix
/// stripped once, undoing exactly what persisting appended.
pub open spec fn key_of_blob_name(s: Seq<u8>) -> Seq<u8> {
    if ends_with_wasm(s) {
        s.take(s.len() - 5)
    } else {
        s
    }
}

/// Build the blob name a key is persisted under.
pub fn blob_name(key: &Vec<u8>) -> (r: Vec<u8>)
    ensures
        r@ == blob_name_of_key(key@),
{
    let mut r = key.clone();
    r.push(46);
    r.push(119);
    r.push(97);
    r.push(115);
    r.push(109);
    proof {
        assert(r@ =~= key@ + wasm_suffix());
    }
    r
}

fn has_wasm_suffix(v: &Vec<u8>) -> (b: bool)
    ensures
        b == ends_with_wasm(v@),
{
    let n = v.len();
    if n < 5 {
        return false;
    }
    let b = v[n - 5] == 46 && v[n - 4] == 119 && v[n - 3] == 97 && v[n - 2] == 115 && v[n - 1]
        == 109;
    proof {
        if b {
            assert(v@.skip(n - 5) =~= wasm_suffix());
        } else {
            if v@.skip(n - 5) == wasm_suffix() {
                assert(v@[n - 5] == 46 && v@[n - 4] == 119 && v@[n - 3] == 97 && v@[n - 2] == 115
                    && v@[n - 1] == 109) by {
                    assert(v@.skip(n - 5)[0] == 46);
                    assert(v@.skip(n - 5)[1] == 119);
                    assert(v@.skip(n - 5)[2] == 97);
                    assert(v@.skip(n - 5)[3] == 115);
                    assert(v@.skip(n - 5)[4] == 109);
                }
                assert(false);
            }
        }
    }
    b
}

/// Recover the module key from a blob name listed in the object store.
pub fn key_of_blob(name: &Vec<u8>) -> (r: Vec<u8>)
    ensures
        r@ == key_of_blob_name(name@),
{
    let mut r = name.clone();
    if has_wasm_suffix(&r) {
        let n = r.len();
        r.truncate(n - 5);
    }
    r
}

/// Restart naming round trip: every key is recovered exactly from the blob
/// name it was persisted under.
pub proof fn lemma_blob_name_round_trip(key: Seq<u8>)
    ensures
        key_of_blob_name(blob_name_of_key(key)) == key,
{
    let b = blob_name_of_key(key);
    assert(b.len() == key.len() + 5);
    assert(b.skip(b.len() - 5) =~= wasm_suffix());
    assert(ends_with_wasm(b));
    assert(b.take(b.len() - 5) =~= key);
}

} // verus!
