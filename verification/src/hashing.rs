//! The digest primitive and the rules for composing digests.
//!
//! A file's digest is the hash of its base name followed by its bytes; a
//! directory's digest is the hash of its children's digests laid end to end
//! in listing order.

use vstd::prelude::*;

verus! {

/// The digest that the hash primitive produces for a given byte sequence.
pub uninterp spec fn blake3_of(input: Seq<u8>) -> Seq<u8>;

/// The bytes fed so far into a streaming hasher state.
pub uninterp spec fn hasher_input(h: blake3::Hasher) -> Seq<u8>;

#[verifier::external_type_specification]
#[verifier::external_body]
pub struct ExHasher(blake3::Hasher);

/// Relies on blake3::Hasher::new: a fresh hasher has received no input.
#[verifier::external_body]
fn hasher_new() -> (r: blake3::Hasher)
    ensures
        hasher_input(r) == Seq::<u8>::empty(),
{
    blake3::Hasher::new()
}

/// Relies on blake3::Hasher::update: it appends the given bytes to the
/// hasher's input; for a hasher made by `Hasher::new` it never panics.
#[verifier::external_body]
fn hasher_update(h: &mut blake3::Hasher, bytes: &[u8])
    ensures
        hasher_input(*final(h)) == hasher_input(*old(h)) + bytes@,
{
    h.update(bytes);
}

/// Relies on blake3::Hasher::finalize and blake3::Hash::as_bytes: the digest
/// is a function of the total input alone and is exactly 32 bytes long.
#[verifier::external_body]
fn hasher_finalize(h: &blake3::Hasher) -> (r: Vec<u8>)
    ensures
        r@ == blake3_of(hasher_input(*h)),
        r@.len() == 32,
{
    h.finalize().as_bytes().to_vec()
}

/// The number of bytes in a digest.
pub const DIGEST_LEN: usize = 32;

/// A fixed-size digest value.
#[derive(Debug)]
pub struct Digest {
    bytes: Vec<u8>,
}

impl View for Digest {
    type V = Seq<u8>;

    closed spec fn view(&self) -> Seq<u8> {
        self.bytes@
    }
}

impl Digest {
    /// A digest is well formed when it has exactly the fixed width.
    pub open spec fn wf(&self) -> bool {
        self@.len() == DIGEST_LEN
    }

    /// The raw bytes of the digest.
    pub fn as_bytes(&self) -> (r: &[u8])
        ensures
            r@ == self@,
    {
        self.bytes.as_slice()
    }

    /// Byte-for-byte comparison of two digests.
    pub fn equals(&self, other: &Digest) -> (r: bool)
        ensures
            r == (self@ == other@),
    {
        if self.bytes.len() != other.bytes.len() {
            assert(self@ != other@);
            return false;
        }
        let n = self.bytes.len();
        let mut i: usize = 0;
        while i < n
            invariant
                n == self.bytes.len(),
                n == other.bytes.len(),
                i <= n,
                forall|j: int| 0 <= j < i ==> self.bytes@[j] == other.bytes@[j],
            decreases n - i,
        {
            if self.bytes[i] != other.bytes[i] {
                assert(self@[i as int] != other@[i as int]);
                return false;
            }
            i = i + 1;
        }
        assert(self@ =~= other@);
        true
    }
}

/// Why a digest could not be decoded from its text form.
#[derive(Clone, Copy, Debug, PartialEq, Eq, Structural)]
pub enum DecodeError {
    /// The text does not have exactly two characters per digest byte.
    BadLength,
    /// A character of the text is no hexadecimal digit.
    BadDigit,
}

/// The lowercase hexadecimal digit for a value below sixteen.
pub open spec fn spec_hex_digit(v: int) -> u8 {
    if v < 10 {
        (48 + v) as u8
    } else {
        (87 + v) as u8
    }
}

/// The lowercase hexadecimal encoding of a byte sequence, two digits per byte.
pub open spec fn spec_hex(bytes: Seq<u8>) -> Seq<u8>
    decreases bytes.len(),
{
    if bytes.len() == 0 {
        Seq::empty()
    } else {
        spec_hex(bytes.drop_last()) + seq![
            spec_hex_digit(bytes.last() as int / 16),
            spec_hex_digit(bytes.last() as int % 16),
        ]
    }
}

/// Whether a byte is an ASCII hexadecimal digit, either case.
pub open spec fn spec_is_hex_digit(b: u8) -> bool {
    (48 <= b && b <= 57) || (97 <= b && b <= 102) || (65 <= b && b <= 70)
}

/// The value of one hexadecimal digit byte.
pub open spec fn spec_hex_val(b: u8) -> int {
    if 48 <= b && b <= 57 {
        b - 48
    } else if 97 <= b && b <= 102 {
        b - 87
    } else {
        b - 55
    }
}

/// Whether a byte sequence is a digest's valid text form: exactly two
/// hexadecimal digits, of either case, per digest byte.
pub open spec fn spec_valid_hex(s: Seq<u8>) -> bool {
    s.len() == 2 * DIGEST_LEN && forall|i: int| 0 <= i < s.len() ==> spec_is_hex_digit(s[i])
}

/// The bytes a hexadecimal text stands for, two digits per byte.
pub open spec fn spec_unhex(s: Seq<u8>) -> Seq<u8> {
    Seq::new((s.len() / 2) as nat, |i: int| (spec_hex_val(s[2 * i]) * 16 + spec_hex_val(s[2 * i + 1])) as u8)
}

fn hex_digit(v: u8) -> (r: u8)
    requires
        v < 16,
    ensures
        r == spec_hex_digit(v as int),
{
    if v < 10 {
        48 + v
    } else {
        87 + v
    }
}

fn hex_val(b: u8) -> (r: u8)
    requires
        spec_is_hex_digit(b),
    ensures
        r as int == spec_hex_val(b),
        r < 16,
{
    if 48 <= b && b <= 57 {
        b - 48
    } else if 97 <= b && b <= 102 {
        b - 87
    } else {
        b - 55
    }
}

impl Digest {
    /// The digest's canonical text form: lowercase hexadecimal.
    pub fn to_hex(&self) -> (r: Vec<u8>)
        ensures
            r@ == spec_hex(self@),
    {
        let mut out: Vec<u8> = Vec::new();
        let n = self.bytes.len();
        let mut i: usize = 0;
        assert(self@.take(0) =~= Seq::<u8>::empty());
        while i < n
            invariant
                n == self.bytes.len(),
                i <= n,
                out@ == spec_hex(self@.take(i as int)),
            decreases n - i,
        {
            let b = self.bytes[i];
            out.push(hex_digit(b / 16));
            out.push(hex_digit(b % 16));
            proof {
                let t = self@.take(i + 1);
                assert(t.drop_last() =~= self@.take(i as int));
                assert(t.last() == self@[i as int]);
                assert(out@ =~= spec_hex(t));
            }
            i = i + 1;
        }
        proof {
            assert(self@.take(n as int) =~= self@);
        }
        out
    }

    /// Decode a digest from its text form. The text must hold exactly two
    /// hexadecimal digits, of either case, per digest byte; anything else is
    /// refused with the reason.
    pub fn from_hex(s: &[u8]) -> (r: Result<Digest, DecodeError>)
        ensures
            match r {
                Ok(d) => spec_valid_hex(s@) && d.wf() && d@ == spec_unhex(s@),
                Err(DecodeError::BadLength) => s@.len() != 2 * DIGEST_LEN,
                Err(DecodeError::BadDigit) => s@.len() == 2 * DIGEST_LEN && !spec_valid_hex(s@),
            },
    {
        if s.len() != 2 * DIGEST_LEN {
            return Err(DecodeError::BadLength);
        }
        let mut out: Vec<u8> = Vec::new();
        let mut i: usize = 0;
        while i < DIGEST_LEN
            invariant
                s@.len() == 2 * DIGEST_LEN,
                i <= DIGEST_LEN,
                out@.len() == i,
                forall|j: int| 0 <= j < 2 * i ==> spec_is_hex_digit(s@[j]),
                forall|j: int|
                    0 <= j < i ==> out@[j] == (spec_hex_val(s@[2 * j]) * 16 + spec_hex_val(
                        s@[2 * j + 1],
                    )) as u8,
            decreases DIGEST_LEN - i,
        {
            let hi = s[2 * i];
            let lo = s[2 * i + 1];
            let hi_ok = (48 <= hi && hi <= 57) || (97 <= hi && hi <= 102) || (65 <= hi && hi <= 70);
            let lo_ok = (48 <= lo && lo <= 57) || (97 <= lo && lo <= 102) || (65 <= lo && lo <= 70);
            if !hi_ok || !lo_ok {
                assert(!spec_valid_hex(s@));
                return Err(DecodeError::BadDigit);
            }
            out.push(hex_val(hi) * 16 + hex_val(lo));
            i = i + 1;
        }
        assert(spec_valid_hex(s@));
        assert(out@ =~= spec_unhex(s@));
        Ok(Digest { bytes: out })
    }
}

/// Encoding a digest and decoding the text gives the digest back: the text
/// form loses nothing.
pub proof fn lemma_hex_round_trip(bytes: Seq<u8>)
    ensures
        spec_hex(bytes).len() == 2 * bytes.len(),
        forall|i: int| 0 <= i < spec_hex(bytes).len() ==> spec_is_hex_digit(#[trigger] spec_hex(bytes)[i]),
        bytes.len() == DIGEST_LEN ==> spec_valid_hex(spec_hex(bytes)),
        spec_unhex(spec_hex(bytes)) == bytes,
    decreases bytes.len(),
{
    if bytes.len() == 0 {
        assert(spec_unhex(spec_hex(bytes)) =~= bytes);
    } else {
        let rest = bytes.drop_last();
        let b = bytes.last();
        lemma_hex_round_trip(rest);
        vstd::arithmetic::div_mod::lemma_fundamental_div_mod(b as int, 16);
        let hx = spec_hex(bytes);
        assert(hx == spec_hex(rest) + seq![
            spec_hex_digit(b as int / 16),
            spec_hex_digit(b as int % 16),
        ]);
        assert forall|i: int| 0 <= i < hx.len() implies spec_is_hex_digit(#[trigger] hx[i]) by {
            if i < spec_hex(rest).len() {
                assert(hx[i] == spec_hex(rest)[i]);
            }
        }
        assert forall|i: int| 0 <= i < bytes.len() implies spec_unhex(hx)[i] == bytes[i] by {
            if i < rest.len() {
                assert(hx[2 * i] == spec_hex(rest)[2 * i]);
                assert(hx[2 * i + 1] == spec_hex(rest)[2 * i + 1]);
                assert(spec_unhex(spec_hex(rest))[i] == rest[i]);
            } else {
                assert(hx[2 * i] == spec_hex_digit(b as int / 16));
                assert(hx[2 * i + 1] == spec_hex_digit(b as int % 16));
            }
        }
        assert(spec_unhex(hx) =~= bytes);
    }
}

/// A streaming hasher that remembers, in ghost state, every byte fed so far.
pub struct ContentHasher {
    inner: blake3::Hasher,
    fed: Ghost<Seq<u8>>,
}

impl ContentHasher {
    /// The bytes this hasher has been fed, oldest first.
    pub closed spec fn fed(&self) -> Seq<u8> {
        self.fed@
    }

    /// The ghost record agrees with the underlying hasher state.
    pub closed spec fn wf(&self) -> bool {
        hasher_input(self.inner) == self.fed@
    }

    /// A fresh hasher has been fed nothing.
    pub fn new() -> (r: ContentHasher)
        ensures
            r.wf(),
            r.fed() == Seq::<u8>::empty(),
    {
        ContentHasher { inner: hasher_new(), fed: Ghost(Seq::empty()) }
    }

    /// Feed one chunk of bytes.
    pub fn update(&mut self, bytes: &[u8])
        requires
            old(self).wf(),
        ensures
            final(self).wf(),
            final(self).fed() == old(self).fed() + bytes@,
    {
        hasher_update(&mut self.inner, bytes);
        proof {
            self.fed@ = self.fed@ + bytes@;
        }
    }

    /// The digest of everything fed so far.
    pub fn finalize(&self) -> (r: Digest)
        requires
            self.wf(),
        ensures
            r.wf(),
            r@ == blake3_of(self.fed()),
    {
        Digest { bytes: hasher_finalize(&self.inner) }
    }
}

/// The digest of a file with the given base name and contents: the hash of
/// the name bytes followed by the content bytes.
pub open spec fn spec_file_digest(name: Seq<u8>, content: Seq<u8>) -> Seq<u8> {
    blake3_of(name + content)
}

/// All the given byte sequences laid end to end.
pub open spec fn concat_all(parts: Seq<Seq<u8>>) -> Seq<u8>
    decreases parts.len(),
{
    if parts.len() == 0 {
        Seq::empty()
    } else {
        concat_all(parts.drop_last()) + parts.last()
    }
}

/// The digest of a directory whose non-pruned children, in listing order,
/// have the given digests: the hash of those digests laid end to end.
pub open spec fn spec_dir_digest(children: Seq<Seq<u8>>) -> Seq<u8> {
    blake3_of(concat_all(children))
}

/// Hash a file held in memory: its base name bytes first, then its contents.
pub fn file_digest(name: &[u8], content: &[u8]) -> (r: Digest)
    ensures
        r.wf(),
        r@ == spec_file_digest(name@, content@),
{
    let mut h = ContentHasher::new();
    h.update(name);
    h.update(content);
    assert(h.fed() =~= name@ + content@);
    h.finalize()
}

/// Combine child digests, in the order given, into one directory digest.
pub fn combine_digests(children: &Vec<Digest>) -> (r: Digest)
    ensures
        r.wf(),
        r@ == spec_dir_digest(children@.map_values(|d: Digest| d@)),
{
    let mut h = ContentHasher::new();
    let n = children.len();
    let mut i: usize = 0;
    assert(h.fed() =~= concat_all(children@.map_values(|d: Digest| d@).take(0)));
    while i < n
        invariant
            n == children.len(),
            i <= n,
            h.wf(),
            h.fed() == concat_all(children@.map_values(|d: Digest| d@).take(i as int)),
        decreases n - i,
    {
        h.update(children[i].as_bytes());
        proof {
            let ds = children@.map_values(|d: Digest| d@);
            assert(ds.take(i + 1).drop_last() =~= ds.take(i as int));
            assert(ds.take(i + 1).last() == ds[i as int]);
        }
        i = i + 1;
    }
    proof {
        let ds = children@.map_values(|d: Digest| d@);
        assert(ds.take(n as int) =~= ds);
    }
    h.finalize()
}

/// Identical names and identical bytes give the identical digest: the digest
/// of a file depends on nothing else.
pub proof fn lemma_file_digest_deterministic(
    name1: Seq<u8>,
    content1: Seq<u8>,
    name2: Seq<u8>,
    content2: Seq<u8>,
)
    requires
        name1 == name2,
        content1 == content2,
    ensures
        spec_file_digest(name1, content1) == spec_file_digest(name2, content2),
{
}

/// The directory digest depends only on the children's digests taken in
/// listing order: two runs that give each listed child the same digest give
/// the directory the same digest, however the work was scheduled.
pub proof fn lemma_combination_schedule_independent(run1: Seq<Seq<u8>>, run2: Seq<Seq<u8>>)
    requires
        run1 == run2,
    ensures
        spec_dir_digest(run1) == spec_dir_digest(run2),
{
}

/// A directory of two children is hashed exactly as the two child digests
/// laid end to end and hashed once.
pub proof fn lemma_pair_combination(a: Seq<u8>, b: Seq<u8>)
    ensures
        spec_dir_digest(seq![a, b]) == blake3_of(a + b),
{
    let parts = seq![a, b];
    let single = seq![a];
    let none = Seq::<Seq<u8>>::empty();
    assert(single.drop_last() =~= none);
    assert(parts.drop_last() =~= single);
    assert(concat_all(none) == Seq::<u8>::empty());
    assert(single.last() == a);
    assert(concat_all(single) == Seq::<u8>::empty() + a);
    assert(Seq::<u8>::empty() + a =~= a);
    assert(parts.last() == b);
    assert(concat_all(parts) == a + b);
}

} // verus!
