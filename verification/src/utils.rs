//! SHA-256 and the hex form of a digest.

use vstd::prelude::*;
use vstd::string::*;

verus! {

/// A SHA-256 computation that takes its input piece by piece.
#[verifier::external_body]
pub struct Sha256 {
    state: sha2::Sha256,
}

/// The bytes that were fed to `hasher` so far, in order.
pub uninterp spec fn absorbed(hasher: Sha256) -> Seq<u8>;

/// The SHA-256 digest of `data`, as `sha2` computes it: what `finalize`
/// returns after `data` was fed to a fresh hasher.
pub uninterp spec fn sha256(data: Seq<u8>) -> Seq<u8>;

/// Calls `sha2::Digest::new` for `sha2::Sha256`: a hasher that was fed
/// nothing.
#[verifier::external_body]
fn sha256_start() -> (hasher: Sha256)
    ensures
        absorbed(hasher) == Seq::<u8>::empty(),
{
    Sha256 { state: sha2::Digest::new() }
}

/// Calls `sha2::Digest::update`, which feeds `data` to the hasher after
/// what it was fed before.
#[verifier::external_body]
fn sha256_update(hasher: &mut Sha256, data: &[u8])
    ensures
        absorbed(*final(hasher)) == absorbed(*old(hasher)) + data@,
{
    sha2::Digest::update(&mut hasher.state, data)
}

/// Calls `sha2::Digest::finalize` on a copy of the hasher. The digest is
/// that of all the bytes fed so far and has 32 bytes; the hasher itself is
/// left as it was.
#[verifier::external_body]
fn sha256_finish(hasher: &Sha256) -> (digest: Vec<u8>)
    ensures
        digest@ == sha256(absorbed(*hasher)),
        digest@.len() == 32,
{
    sha2::Digest::finalize(hasher.state.clone()).to_vec()
}

impl Sha256 {
    /// A hasher that was fed nothing.
    pub fn new() -> (hasher: Sha256)
        ensures
            absorbed(hasher) == Seq::<u8>::empty(),
    {
        sha256_start()
    }

    /// Feeds `data` to the hasher.
    pub fn update(&mut self, data: &[u8])
        ensures
            absorbed(*final(self)) == absorbed(*old(self)) + data@,
    {
        sha256_update(self, data)
    }

    /// The digest of what was fed so far.
    pub fn digest(&self) -> (digest: Vec<u8>)
        ensures
            digest@ == sha256(absorbed(*self)),
            digest@.len() == 32,
    {
        sha256_finish(self)
    }
}

/// The character that writes `n`, a number below 16, in lower-case hex.
pub open spec fn hex_digit(n: nat) -> char {
    if n < 10 {
        crate::text::digit_char(n)
    } else if n == 10 {
        'a'
    } else if n == 11 {
        'b'
    } else if n == 12 {
        'c'
    } else if n == 13 {
        'd'
    } else if n == 14 {
        'e'
    } else {
        'f'
    }
}

/// `bytes` in lower-case hex: two digits to a byte, the high half first.
pub open spec fn hex(bytes: Seq<u8>) -> Seq<char> {
    Seq::new(
        2 * bytes.len(),
        |i: int|
            if i % 2 == 0 {
                hex_digit((bytes[i / 2] / 16) as nat)
            } else {
                hex_digit((bytes[i / 2] % 16) as nat)
            },
    )
}

fn hex_digit_text(n: u8) -> (r: &'static str)
    requires
        n < 16,
    ensures
        r@ == seq![hex_digit(n as nat)],
{
    proof {
        reveal_strlit("0");
        reveal_strlit("1");
        reveal_strlit("2");
        reveal_strlit("3");
        reveal_strlit("4");
        reveal_strlit("5");
        reveal_strlit("6");
        reveal_strlit("7");
        reveal_strlit("8");
        reveal_strlit("9");
        reveal_strlit("a");
        reveal_strlit("b");
        reveal_strlit("c");
        reveal_strlit("d");
        reveal_strlit("e");
        reveal_strlit("f");
    }
    let r = match n {
        0 => "0",
        1 => "1",
        2 => "2",
        3 => "3",
        4 => "4",
        5 => "5",
        6 => "6",
        7 => "7",
        8 => "8",
        9 => "9",
        10 => "a",
        11 => "b",
        12 => "c",
        13 => "d",
        14 => "e",
        _ => "f",
    };
    r
}

/// `bytes` in lower-case hex.
pub fn hex_of(bytes: &[u8]) -> (r: String)
    ensures
        r@ == hex(bytes@),
{
    let mut r = String::new();
    let mut i: usize = 0;
    while i < bytes.len()
        invariant
            i <= bytes@.len(),
            r@ == hex(bytes@.take(i as int)),
        decreases bytes@.len() - i,
    {
        let byte = bytes[i];
        let ghost so_far = r@;
        r.append(hex_digit_text(byte / 16));
        r.append(hex_digit_text(byte % 16));
        proof {
            let next = hex(bytes@.take(i + 1));
            assert forall|k: int| 0 <= k < next.len() implies r@[k] == next[k] by {
                if k < 2 * i {
                    assert(r@[k] == so_far[k]);
                } else {
                    assert(k / 2 == i);
                }
            }
        }
        i += 1;
    }
    r
}

/// The digest of what `sha` was fed so far, in lower-case hex.
pub fn to_hex(sha: &Sha256) -> (r: String)
    ensures
        r@ == hex(sha256(absorbed(*sha))),
        r@.len() == 64,
{
    let digest = sha.digest();
    hex_of(digest.as_slice())
}

/// A hex form holds hex digits and nothing else.
pub proof fn lemma_hex_digits(bytes: Seq<u8>, i: int)
    requires
        0 <= i < hex(bytes).len(),
    ensures
        ('0' <= hex(bytes)[i] <= '9') || ('a' <= hex(bytes)[i] <= 'f'),
{
}

} // verus!
