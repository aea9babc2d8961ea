//! Keys under which generated previews are cached: a file's path, time of
//! last change and size, so that an unchanged file finds its preview again.
use vstd::prelude::*;
use crate::numfmt::{decimal, decimal_chars, hex_chars, hex_lower};
use crate::text::string_from_chars;

verus! {

/// The djb2 hash of `data`: starting from 5381, each byte `b` turns `h`
/// into `h * 33 + b`, modulo 2^64.
pub open spec fn djb2(data: Seq<u8>) -> nat
    decreases data.len(),
{
    if data.len() == 0 {
        5381
    } else {
        ((djb2(data.drop_last()) * 33 + data.last()) % 0x1_0000_0000_0000_0000) as nat
    }
}

/// The djb2 hash of `data` (64-bit, wrapping).
pub fn djb2_hash(data: &[u8]) -> (r: u64)
    ensures
        r as nat == djb2(data@),
{
    let mut h: u64 = 5381;
    let mut i: usize = 0;
    while i < data.len()
        invariant
            i <= data.len(),
            h as nat == djb2(data@.take(i as int)),
        decreases data.len() - i,
    {
        let b = data[i];
        let ghost prev = h;
        h = h.wrapping_mul(33).wrapping_add(b as u64);
        proof {
            assert(data@.take(i + 1).drop_last() =~= data@.take(i as int));
            assert(data@.take(i + 1).last() == b);
            let m = 0x1_0000_0000_0000_0000nat;
            let x = (prev as nat * 33) % m;
            assert(x + b < 2 * m);
            vstd::arithmetic::div_mod::lemma_add_mod_noop(prev as int * 33, b as int, m as int);
            vstd::arithmetic::div_mod::lemma_mod_twice(b as int, m as int);
        }
        i = i + 1;
    }
    assert(data@.take(data.len() as int) =~= data@);
    h
}

/// The cache key of a file: the lower-case hexadecimal djb2 hash of its
/// path's UTF-8 bytes, its time of last change in seconds, and its size,
/// joined by `-`.
pub open spec fn cache_key_of(path: Seq<char>, mtime_secs: u64, size: u64) -> Seq<char> {
    hex_lower(djb2(vstd::utf8::encode_utf8(path))) + seq!['-'] + decimal(mtime_secs as nat) + seq![
        '-',
    ] + decimal(size as nat)
}

/// The cache key of the file at `path` with the given time of last change
/// (seconds since the Unix epoch, 0 where unknown) and size.
pub fn cache_key_for(path: &str, mtime_secs: u64, size: u64) -> (r: String)
    ensures
        r@ == cache_key_of(path@, mtime_secs, size),
{
    let h = djb2_hash(path.as_bytes());
    let mut out = hex_chars(h);
    out.push('-');
    let mut m = decimal_chars(mtime_secs);
    out.append(&mut m);
    out.push('-');
    let mut s = decimal_chars(size);
    out.append(&mut s);
    string_from_chars(out.as_slice())
}

} // verus!
