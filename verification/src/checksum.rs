//! SHA-256 checksums of streamed bytes, in lowercase hexadecimal.
use sha2::Digest;
use vstd::prelude::*;

verus! {

/// A running `sha2::Sha256` hash. Verus cannot declare the hasher type itself (it is
/// an alias of a generic wrapper), so it is held here, opaque, with a name for the
/// bytes fed so far.
#[verifier::external_body]
pub struct Hasher {
    inner: sha2::Sha256,
}

/// The bytes fed to a hasher, in order.
pub uninterp spec fn fed(h: Hasher) -> Seq<u8>;

/// The SHA-256 digest of some bytes.
pub uninterp spec fn sha256(bytes: Seq<u8>) -> Seq<u8>;

/// `sha2::Sha256::new`: a hasher that has been fed nothing.
#[verifier::external_body]
fn hasher() -> (r: Hasher)
    ensures
        fed(r) == Seq::<u8>::empty(),
{
    Hasher { inner: sha2::Sha256::new() }
}

/// `Digest::update`: feeds the bytes to the hasher.
#[verifier::external_body]
fn feed(h: &mut Hasher, data: &[u8])
    ensures
        fed(*final(h)) == fed(*old(h)) + data@,
{
    h.inner.update(data);
}

/// `Digest::finalize`: the 32-byte digest of everything fed.
#[verifier::external_body]
fn digest(h: Hasher) -> (r: Vec<u8>)
    ensures
        r@ == sha256(fed(h)),
        r@.len() == 32,
{
    h.inner.finalize().to_vec()
}

/// The lowercase hexadecimal digit for `d < 16`.
pub open spec fn hex_digit(d: int) -> char {
    if d < 10 {
        ('0' as int + d) as char
    } else {
        ('a' as int + d - 10) as char
    }
}

/// Bytes as lowercase hexadecimal, two digits each, as `{:02x}` writes them.
pub open spec fn hex_text(bytes: Seq<u8>) -> Seq<char>
    decreases bytes.len(),
{
    if bytes.len() == 0 {
        Seq::empty()
    } else {
        hex_text(bytes.drop_last()).push(hex_digit((bytes.last() / 16) as int)).push(
            hex_digit((bytes.last() % 16) as int),
        )
    }
}

fn digit(d: u8) -> (r: char)
    requires
        d < 16,
    ensures
        r == hex_digit(d as int),
{
    if d < 10 {
        (48u8 + d) as char
    } else {
        (87u8 + d) as char
    }
}

/// Bytes as lowercase hexadecimal.
pub fn hex(bytes: &Vec<u8>) -> (r: String)
    ensures
        r@ == hex_text(bytes@),
{
    let mut r = String::new();
    let mut i: usize = 0;
    while i < bytes.len()
        invariant
            i <= bytes.len(),
            r@ == hex_text(bytes@.take(i as int)),
        decreases bytes.len() - i,
    {
        let b = bytes[i];
        crate::strings::push_char(&mut r, digit(b / 16));
        crate::strings::push_char(&mut r, digit(b % 16));
        assert(bytes@.take(i + 1).drop_last() =~= bytes@.take(i as int));
        i += 1;
    }
    assert(bytes@.take(bytes.len() as int) =~= bytes@);
    r
}

/// The SHA-256 checksum of bytes that arrive in pieces.
pub struct Checksum {
    hasher: Hasher,
}

impl View for Checksum {
    type V = Seq<u8>;

    /// The bytes added so far.
    closed spec fn view(&self) -> Seq<u8> {
        fed(self.hasher)
    }
}

impl Checksum {
    /// A checksum of no bytes yet.
    pub fn new() -> (r: Checksum)
        ensures
            r@ == Seq::<u8>::empty(),
    {
        Checksum { hasher: hasher() }
    }

    /// Adds the next bytes.
    pub fn update(&mut self, data: &[u8])
        ensures
            final(self)@ == old(self)@ + data@,
    {
        feed(&mut self.hasher, data);
    }

    /// The lowercase hexadecimal SHA-256 of all bytes added.
    pub fn hex(self) -> (r: String)
        ensures
            r@ == hex_text(sha256(self@)),
    {
        hex(&digest(self.hasher))
    }
}

} // verus!
