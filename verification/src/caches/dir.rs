//! The file-name scheme of the directory-backed cache.
//!
//! A slot's name is a prefix (`cached_cert_` or `cached_account_`) followed
//! by the base64url, unpadded SHA-256 of a canonical byte string: each input
//! item's bytes terminated by one zero byte, then the directory URL's bytes.
//! The canonical string determines the slot, distinct item lists give
//! distinct canonical strings (items hold no zero byte, as DNS names and
//! contact URIs do not), and the same inputs always give the same name.
//! The file I/O around these names lives outside the library.

use vstd::prelude::*;
use vstd::string::StringSliceAdditionalSpecFns;
use crate::acme::spec_strings_bytes;
use crate::b64::{spec_b64_encode_nopad, b64_encode_nopad, spec_is_b64_char, lemma_b64_char_benign,
    lemma_encode_nopad_chars};
use crate::crypto::{sha256, sha256_of, string_from_ascii};
use crate::jose::spec_str_bytes;

verus! {

/// Each item's bytes terminated by a zero byte.
pub open spec fn spec_zero_terminated(items: Seq<Seq<u8>>) -> Seq<u8>
    decreases items.len(),
{
    if items.len() == 0 {
        Seq::empty()
    } else {
        items[0] + seq![0u8] + spec_zero_terminated(items.skip(1))
    }
}

/// The canonical byte string a slot is derived from.
pub open spec fn spec_canonical(items: Seq<Seq<u8>>, url: Seq<u8>) -> Seq<u8> {
    spec_zero_terminated(items) + url
}

/// No item holds a zero byte.
pub open spec fn spec_nul_free(items: Seq<Seq<u8>>) -> bool {
    forall|i: int, k: int|
        0 <= i < items.len() && 0 <= k < items[i].len() ==> #[trigger] items[i][k] != 0
}

/// `cached_cert_` as bytes.
pub open spec fn spec_cert_prefix() -> Seq<u8> {
    seq![99u8, 97u8, 99u8, 104u8, 101u8, 100u8, 95u8, 99u8, 101u8, 114u8, 116u8, 95u8]
}

/// `cached_account_` as bytes.
pub open spec fn spec_account_prefix() -> Seq<u8> {
    seq![
        99u8,
        97u8,
        99u8,
        104u8,
        101u8,
        100u8,
        95u8,
        97u8,
        99u8,
        99u8,
        111u8,
        117u8,
        110u8,
        116u8,
        95u8,
    ]
}

/// The slot name over a prefix: the prefix, then the base64url unpadded
/// SHA-256 of the canonical string.
pub open spec fn spec_cached_name(prefix: Seq<u8>, items: Seq<Seq<u8>>, url: Seq<u8>) -> Seq<u8> {
    prefix + spec_b64_encode_nopad(true, sha256_of(spec_canonical(items, url)))
}

/// The characters of an ASCII byte string.
pub open spec fn spec_chars_of_ascii(b: Seq<u8>) -> Seq<char> {
    b.map_values(|x: u8| x as char)
}

proof fn lemma_zt_snoc(items: Seq<Seq<u8>>, i: int)
    requires
        0 <= i < items.len(),
    ensures
        spec_zero_terminated(items.take(i + 1)) == spec_zero_terminated(items.take(i)) + items[i]
            + seq![0u8],
    decreases i,
{
    if i == 0 {
        assert(items.take(1)[0] == items[0]);
        assert(items.take(1).skip(1) =~= Seq::<Seq<u8>>::empty());
        assert(items.take(0) =~= Seq::<Seq<u8>>::empty());
        assert(spec_zero_terminated(Seq::<Seq<u8>>::empty()) =~= Seq::<u8>::empty());
        assert(spec_zero_terminated(items.take(i + 1)) =~= spec_zero_terminated(items.take(i))
            + items[i] + seq![0u8]);
    } else {
        lemma_zt_snoc(items.skip(1), i - 1);
        assert(items.take(i + 1)[0] == items[0]);
        assert(items.take(i)[0] == items[0]);
        assert(items.take(i + 1).skip(1) =~= items.skip(1).take(i));
        assert(items.take(i).skip(1) =~= items.skip(1).take(i - 1));
        assert(items.skip(1)[i - 1] == items[i]);
        assert(spec_zero_terminated(items.take(i + 1)) =~= spec_zero_terminated(items.take(i))
            + items[i] + seq![0u8]);
    }
}

/// The canonical byte string of a list of strings and a URL.
pub fn canonical_bytes(items: &Vec<String>, url: &String) -> (r: Vec<u8>)
    ensures
        r@ == spec_canonical(spec_strings_bytes(items@), spec_str_bytes(url@)),
{
    let ghost bs = spec_strings_bytes(items@);
    let n = items.len();
    let mut out: Vec<u8> = Vec::new();
    let mut i: usize = 0;
    proof {
        assert(bs.take(0) =~= Seq::<Seq<u8>>::empty());
        assert(spec_zero_terminated(Seq::<Seq<u8>>::empty()) =~= Seq::<u8>::empty());
        assert(out@ =~= spec_zero_terminated(bs.take(0)));
    }
    while i < n
        invariant
            i <= n,
            n == items@.len(),
            bs == spec_strings_bytes(items@),
            out@ == spec_zero_terminated(bs.take(i as int)),
        decreases n - i,
    {
        out.extend_from_slice(items[i].as_str().as_bytes());
        out.push(0);
        proof {
            assert(bs[i as int] == spec_str_bytes(items@[i as int]@));
            lemma_zt_snoc(bs, i as int);
            assert(out@ =~= spec_zero_terminated(bs.take(i + 1)));
        }
        i = i + 1;
    }
    out.extend_from_slice(url.as_str().as_bytes());
    proof {
        assert(bs.take(n as int) =~= bs);
        assert(out@ =~= spec_canonical(bs, spec_str_bytes(url@)));
    }
    out
}

/// The slot name over a given ASCII prefix.
fn cached_name(prefix: Vec<u8>, items: &Vec<String>, url: &String) -> (r: String)
    requires
        forall|k: int| 0 <= k < prefix@.len() ==> prefix@[k] < 128,
    ensures
        r@ == spec_chars_of_ascii(
            spec_cached_name(prefix@, spec_strings_bytes(items@), spec_str_bytes(url@)),
        ),
{
    let canonical = canonical_bytes(items, url);
    let digest = sha256(canonical.as_slice());
    let encoded = b64_encode_nopad(true, digest.as_slice());
    let mut name = prefix;
    name.extend_from_slice(encoded.as_slice());
    proof {
        lemma_encode_nopad_chars(true, digest@);
        assert forall|k: int| 0 <= k < name@.len() implies name@[k] < 128 by {
            if k >= prefix@.len() {
                assert(spec_is_b64_char(true, encoded@[k - prefix@.len()]));
                lemma_b64_char_benign(true, encoded@[k - prefix@.len()]);
            }
        }
        assert(name@ =~= spec_cached_name(
            prefix@,
            spec_strings_bytes(items@),
            spec_str_bytes(url@),
        ));
    }
    let s = string_from_ascii(name);
    proof {
        assert(s@ =~= spec_chars_of_ascii(
            spec_cached_name(prefix@, spec_strings_bytes(items@), spec_str_bytes(url@)),
        ));
    }
    s
}

/// The file-name scheme of a directory-backed cache, over its directory
/// path.
pub struct DirCache {
    pub dir: String,
}

impl DirCache {
    /// A directory cache rooted at this path.
    pub fn new(dir: String) -> (r: Self)
        ensures
            r.dir@ == dir@,
    {
        DirCache { dir }
    }

    /// The certificate slot name for a domain list and directory URL.
    pub fn cached_cert_file_name(domains: &Vec<String>, directory_url: &String) -> (r: String)
        ensures
            r@ == spec_chars_of_ascii(
                spec_cached_name(
                    spec_cert_prefix(),
                    spec_strings_bytes(domains@),
                    spec_str_bytes(directory_url@),
                ),
            ),
    {
        let prefix: Vec<u8> = vec![99, 97, 99, 104, 101, 100, 95, 99, 101, 114, 116, 95];
        proof {
            assert(prefix@ =~= spec_cert_prefix());
        }
        cached_name(prefix, domains, directory_url)
    }

    /// The account slot name for a contact list and directory URL.
    pub fn cached_account_file_name(contact: &Vec<String>, directory_url: &String) -> (r: String)
        ensures
            r@ == spec_chars_of_ascii(
                spec_cached_name(
                    spec_account_prefix(),
                    spec_strings_bytes(contact@),
                    spec_str_bytes(directory_url@),
                ),
            ),
    {
        let prefix: Vec<u8> = vec![
            99,
            97,
            99,
            104,
            101,
            100,
            95,
            97,
            99,
            99,
            111,
            117,
            110,
            116,
            95,
        ];
        proof {
            assert(prefix@ =~= spec_account_prefix());
        }
        cached_name(prefix, contact, directory_url)
    }
}

/// The first zero byte of a nonempty zero-terminated string marks the end
/// of the first item.
proof fn lemma_zt_first(items: Seq<Seq<u8>>)
    requires
        items.len() > 0,
        spec_nul_free(items),
    ensures
        spec_zero_terminated(items).len() > items[0].len(),
        spec_zero_terminated(items)[items[0].len() as int] == 0,
        forall|k: int|
            0 <= k < items[0].len() ==> #[trigger] spec_zero_terminated(items)[k] == items[0][k]
                && spec_zero_terminated(items)[k] != 0,
{
}

/// Zero-terminated serialization is injective over zero-free items.
proof fn lemma_zt_injective(l1: Seq<Seq<u8>>, l2: Seq<Seq<u8>>)
    requires
        spec_nul_free(l1),
        spec_nul_free(l2),
        spec_zero_terminated(l1) == spec_zero_terminated(l2),
    ensures
        l1 == l2,
    decreases l1.len(),
{
    if l1.len() == 0 {
        if l2.len() > 0 {
            lemma_zt_first(l2);
            assert(spec_zero_terminated(l1).len() == 0);
        }
        assert(l1 =~= l2);
    } else if l2.len() == 0 {
        lemma_zt_first(l1);
        assert(spec_zero_terminated(l2).len() == 0);
        assert(l1 =~= l2);
    } else {
        lemma_zt_first(l1);
        lemma_zt_first(l2);
        let a = l1[0];
        let b = l2[0];
        let z = spec_zero_terminated(l1);
        if a.len() < b.len() {
            assert(z[a.len() as int] == 0);
            assert(spec_zero_terminated(l2)[a.len() as int] != 0);
            assert(false);
        } else if b.len() < a.len() {
            assert(z[b.len() as int] != 0);
            assert(spec_zero_terminated(l2)[b.len() as int] == 0);
            assert(false);
        }
        assert forall|k: int| 0 <= k < a.len() implies a[k] == b[k] by {
            assert(spec_zero_terminated(l1)[k] == a[k]);
            assert(spec_zero_terminated(l2)[k] == b[k]);
        }
        assert(a =~= b);
        let t1 = spec_zero_terminated(l1.skip(1));
        let t2 = spec_zero_terminated(l2.skip(1));
        assert(z =~= a + seq![0u8] + t1);
        assert(z =~= b + seq![0u8] + t2);
        assert(t1 =~= t2) by {
            assert(t1.len() == z.len() - a.len() - 1);
            assert(t2.len() == z.len() - b.len() - 1);
            assert(forall|k: int| 0 <= k < t1.len() ==> t1[k] == z[a.len() + 1 + k]);
            assert(forall|k: int| 0 <= k < t2.len() ==> t2[k] == z[b.len() + 1 + k]);
        }
        assert(spec_nul_free(l1.skip(1))) by {
            assert(forall|i: int, k: int|
                0 <= i < l1.skip(1).len() && 0 <= k < l1.skip(1)[i].len()
                    ==> #[trigger] l1.skip(1)[i][k] == l1[i + 1][k]);
        }
        assert(spec_nul_free(l2.skip(1))) by {
            assert(forall|i: int, k: int|
                0 <= i < l2.skip(1).len() && 0 <= k < l2.skip(1)[i].len()
                    ==> #[trigger] l2.skip(1)[i][k] == l2[i + 1][k]);
        }
        lemma_zt_injective(l1.skip(1), l2.skip(1));
        assert forall|i: int| 0 <= i < l1.len() implies l1[i] == l2[i] by {
            if i > 0 {
                assert(l1.skip(1)[i - 1] == l1[i]);
                assert(l2.skip(1)[i - 1] == l2[i]);
            }
        }
        assert(l1 =~= l2);
    }
}

/// The same inputs always derive the same slot name.
pub proof fn lemma_cached_name_deterministic(
    prefix1: Seq<u8>,
    prefix2: Seq<u8>,
    items1: Seq<Seq<u8>>,
    items2: Seq<Seq<u8>>,
    url1: Seq<u8>,
    url2: Seq<u8>,
)
    requires
        prefix1 == prefix2,
        items1 == items2,
        url1 == url2,
    ensures
        spec_cached_name(prefix1, items1, url1) == spec_cached_name(prefix2, items2, url2),
{
}

/// Distinct item lists — a reordering included — derive distinct canonical
/// byte strings under the same directory URL, when no item holds a zero
/// byte.  The slot name hashes the canonical string, so distinct inputs
/// reach the same slot only through a digest collision.
pub proof fn lemma_canonical_injective(l1: Seq<Seq<u8>>, l2: Seq<Seq<u8>>, url: Seq<u8>)
    requires
        spec_nul_free(l1),
        spec_nul_free(l2),
        l1 != l2,
    ensures
        spec_canonical(l1, url) != spec_canonical(l2, url),
{
    if spec_canonical(l1, url) == spec_canonical(l2, url) {
        let z1 = spec_zero_terminated(l1);
        let z2 = spec_zero_terminated(l2);
        assert(spec_canonical(l1, url) == z1 + url);
        assert(spec_canonical(l2, url) == z2 + url);
        assert((z1 + url).len() == (z2 + url).len());
        assert(z1.len() == z2.len());
        assert forall|k: int| 0 <= k < z1.len() implies z1[k] == z2[k] by {
            assert((z1 + url)[k] == z1[k]);
            assert((z2 + url)[k] == z2[k]);
        }
        assert(z1 =~= z2);
        lemma_zt_injective(l1, l2);
    }
}

} // verus!
