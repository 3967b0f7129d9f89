//! SHA-256 digests of model files, and their lowercase hex form.

use vstd::prelude::*;
use sha2::Digest;
use sha2::Sha256;
use crate::text::{hex_digit, hex_lower, is_whitespace, to_hex_lower, trim_end, trim_start, trimmed};

verus! {

// Verus refuses a declaration of `sha2::Sha256`: it is an alias of
// `CoreWrapper<CtVariableCoreWrapper<..>>`, whose where-clauses over typenum
// traits cannot be restated. The hasher is therefore held in this opaque
// struct; what it has been fed is named by `hasher_input`.
/// A running SHA-256 computation.
#[verifier::external_body]
pub struct ModelHasher {
    inner: Sha256,
}

/// The bytes fed so far to a hasher.
pub uninterp spec fn hasher_input(h: ModelHasher) -> Seq<u8>;

/// The SHA-256 digest of a byte sequence.
pub uninterp spec fn sha256_of(data: Seq<u8>) -> Seq<u8>;

/// `Sha256::new` (sha2): a hasher that has been fed nothing.
#[verifier::external_body]
fn hasher_new() -> (h: ModelHasher)
    ensures
        hasher_input(h) == Seq::<u8>::empty(),
{
    ModelHasher { inner: Sha256::new() }
}

/// `Digest::update` (sha2): feeds `data` after what the hasher already holds.
#[verifier::external_body]
fn hasher_update(h: &mut ModelHasher, data: &[u8])
    ensures
        hasher_input(*final(h)) == hasher_input(*old(h)) + data@,
{
    h.inner.update(data)
}

/// `Digest::finalize` (sha2): the 32-byte digest of everything fed.
#[verifier::external_body]
fn hasher_finalize(h: ModelHasher) -> (d: Vec<u8>)
    ensures
        d@ == sha256_of(hasher_input(h)),
        d@.len() == 32,
{
    h.inner.finalize().to_vec()
}


impl ModelHasher {
    /// A hasher that has been fed nothing.
    pub fn new() -> (h: Self)
        ensures
            hasher_input(h) == Seq::<u8>::empty(),
    {
        hasher_new()
    }

    /// Feeds `data` after everything fed so far.
    pub fn update(&mut self, data: &[u8])
        ensures
            hasher_input(*final(self)) == hasher_input(*old(self)) + data@,
    {
        hasher_update(self, data)
    }

    /// The digest of everything fed, in lowercase hex: the form in which a
    /// digest is stored next to a model and compared later.
    pub fn finish_hex(self) -> (hex: String)
        ensures
            hex@ == hex_lower(sha256_of(hasher_input(self))),
            sha256_of(hasher_input(self)).len() == 32,
            hex@.len() == 64,
    {
        let d = hasher_finalize(self);
        proof {
            lemma_hex_lower_shape(d@);
        }
        to_hex_lower(d.as_slice())
    }
}

/// Whether a model file whose bytes are `file_bytes` passes the check
/// against the digest pinned when it was downloaded. A missing model, or
/// one without a pinned digest, has nothing to check and passes.
pub open spec fn cached_model_ok(model_exists: bool, pinned: Option<Seq<char>>, file_bytes: Seq<u8>) -> bool {
    match pinned {
        Some(p) => !model_exists || hex_lower(sha256_of(file_bytes)) == trimmed(p),
        None => true,
    }
}

/// The digest to compare a cached model against: `None` when there is
/// nothing to verify (no model file, or no pinned digest), else the pinned
/// digest with surrounding whitespace removed.
pub fn pinned_digest(model_file_exists: bool, pinned_file: Option<String>) -> (expected: Option<String>)
    ensures
        !model_file_exists ==> expected is None,
        model_file_exists ==> match pinned_file {
            None => expected is None,
            Some(c) => (expected matches Some(e) && e@ == trimmed(c@)),
        },
{
    if !model_file_exists {
        return None;
    }
    match pinned_file {
        None => None,
        Some(c) => Some(crate::text::trim(c.as_str())),
    }
}

/// Whether the digest of what `hasher` was fed equals `expected`.
pub fn digest_matches(expected: &String, hasher: ModelHasher) -> (ok: bool)
    ensures
        ok == (hex_lower(sha256_of(hasher_input(hasher))) == expected@),
        sha256_of(hasher_input(hasher)).len() == 32,
{
    let actual = hasher.finish_hex();
    actual == *expected
}

proof fn lemma_hex_digit_not_whitespace(d: int)
    ensures
        !is_whitespace(hex_digit(d)),
{
}

proof fn lemma_hex_lower_shape(bytes: Seq<u8>)
    ensures
        hex_lower(bytes).len() == 2 * bytes.len(),
        forall|i: int| 0 <= i < hex_lower(bytes).len() ==> !is_whitespace(#[trigger] hex_lower(bytes)[i]),
    decreases bytes.len(),
{
    if bytes.len() > 0 {
        lemma_hex_lower_shape(bytes.drop_last());
        lemma_hex_digit_not_whitespace((bytes.last() / 16) as int);
        lemma_hex_digit_not_whitespace((bytes.last() % 16) as int);
        let prev = hex_lower(bytes.drop_last());
        let tail = seq![
            hex_digit((bytes.last() / 16) as int),
            hex_digit((bytes.last() % 16) as int),
        ];
        assert forall|i: int| 0 <= i < hex_lower(bytes).len() implies !is_whitespace(
            #[trigger] hex_lower(bytes)[i],
        ) by {
            if i < prev.len() {
                assert(hex_lower(bytes)[i] == prev[i]);
            } else {
                assert(hex_lower(bytes)[i] == tail[i - prev.len()]);
            }
        }
    }
}

/// A digest in hex has no surrounding whitespace: trimming leaves it as is.
proof fn lemma_trim_hex(bytes: Seq<u8>)
    ensures
        trimmed(hex_lower(bytes)) == hex_lower(bytes),
{
    lemma_hex_lower_shape(bytes);
    let h = hex_lower(bytes);
    if h.len() > 0 {
        assert(!is_whitespace(h[0]));
        assert(trim_start(h) == h);
        assert(!is_whitespace(h.last()));
    }
}

proof fn lemma_hex_digit_injective(a: int, b: int)
    requires
        0 <= a < 16,
        0 <= b < 16,
        hex_digit(a) == hex_digit(b),
    ensures
        a == b,
{
}

proof fn lemma_hex_lower_injective(a: Seq<u8>, b: Seq<u8>)
    requires
        hex_lower(a) == hex_lower(b),
    ensures
        a == b,
    decreases a.len(),
{
    lemma_hex_lower_shape(a);
    lemma_hex_lower_shape(b);
    if a.len() > 0 {
        let ha = hex_lower(a);
        let pa = hex_lower(a.drop_last());
        let pb = hex_lower(b.drop_last());
        lemma_hex_lower_shape(a.drop_last());
        lemma_hex_lower_shape(b.drop_last());
        assert(ha[ha.len() - 2] == hex_digit((a.last() / 16) as int));
        assert(ha[ha.len() - 1] == hex_digit((a.last() % 16) as int));
        assert(hex_lower(b)[ha.len() - 2] == hex_digit((b.last() / 16) as int));
        assert(hex_lower(b)[ha.len() - 1] == hex_digit((b.last() % 16) as int));
        lemma_hex_digit_injective((a.last() / 16) as int, (b.last() / 16) as int);
        lemma_hex_digit_injective((a.last() % 16) as int, (b.last() % 16) as int);
        assert(a.last() == b.last());
        assert(pa =~= ha.subrange(0, ha.len() - 2));
        assert(pb =~= hex_lower(b).subrange(0, ha.len() - 2));
        lemma_hex_lower_injective(a.drop_last(), b.drop_last());
        assert(a =~= a.drop_last().push(a.last()));
        assert(b =~= b.drop_last().push(b.last()));
    }
}

/// A model checked against the digest stored when it was downloaded passes
/// when its bytes are the downloaded ones, also if the stored digest was
/// given surrounding whitespace; and fails whenever its bytes have another
/// digest.
pub proof fn law_pinned_digest_round_trip(downloaded: Seq<u8>, on_disk: Seq<u8>, padding: Seq<char>)
    requires
        forall|i: int| 0 <= i < padding.len() ==> is_whitespace(#[trigger] padding[i]),
    ensures
        cached_model_ok(true, Some(hex_lower(sha256_of(downloaded))), downloaded),
        cached_model_ok(true, Some(hex_lower(sha256_of(downloaded)) + padding), downloaded),
        cached_model_ok(true, Some(hex_lower(sha256_of(downloaded))), on_disk) <==> sha256_of(
            on_disk,
        ) == sha256_of(downloaded),
{
    let h = hex_lower(sha256_of(downloaded));
    lemma_trim_hex(sha256_of(downloaded));
    lemma_hex_lower_shape(sha256_of(downloaded));
    lemma_trim_end_padding(h, padding);
    if hex_lower(sha256_of(on_disk)) == h {
        lemma_hex_lower_injective(sha256_of(on_disk), sha256_of(downloaded));
    }
}

proof fn lemma_trim_end_padding(h: Seq<char>, padding: Seq<char>)
    requires
        forall|i: int| 0 <= i < padding.len() ==> is_whitespace(#[trigger] padding[i]),
        forall|i: int| 0 <= i < h.len() ==> !is_whitespace(#[trigger] h[i]),
    ensures
        trimmed(h + padding) == h,
{
    if h.len() == 0 {
        assert(h + padding =~= padding);
        lemma_trim_start_all_whitespace(padding);
    } else {
        assert((h + padding)[0] == h[0]);
        assert(trim_start(h + padding) == h + padding);
        lemma_trim_end_suffix(h, padding);
    }
}

proof fn lemma_trim_start_all_whitespace(s: Seq<char>)
    requires
        forall|i: int| 0 <= i < s.len() ==> is_whitespace(#[trigger] s[i]),
    ensures
        trim_start(s) == Seq::<char>::empty(),
        trim_end(Seq::<char>::empty()) == Seq::<char>::empty(),
    decreases s.len(),
{
    if s.len() > 0 {
        assert(is_whitespace(s[0]));
        assert forall|i: int| 0 <= i < s.drop_first().len() implies is_whitespace(
            #[trigger] s.drop_first()[i],
        ) by {
            assert(s.drop_first()[i] == s[i + 1]);
        }
        lemma_trim_start_all_whitespace(s.drop_first());
    }
}

proof fn lemma_trim_end_suffix(h: Seq<char>, padding: Seq<char>)
    requires
        h.len() > 0,
        !is_whitespace(h.last()),
        forall|i: int| 0 <= i < padding.len() ==> is_whitespace(#[trigger] padding[i]),
    ensures
        trim_end(h + padding) == h,
    decreases padding.len(),
{
    if padding.len() == 0 {
        assert(h + padding =~= h);
    } else {
        assert((h + padding).last() == padding.last());
        assert(is_whitespace(padding[padding.len() - 1]));
        assert((h + padding).drop_last() =~= h + padding.drop_last());
        assert forall|i: int| 0 <= i < padding.drop_last().len() implies is_whitespace(
            #[trigger] padding.drop_last()[i],
        ) by {
            assert(padding.drop_last()[i] == padding[i]);
        }
        lemma_trim_end_suffix(h, padding.drop_last());
    }
}

} // verus!
