//! PEM bundle codec over bytes.
//!
//! A block is `-----BEGIN <tag>-----`, a base64 body wrapped at 64 columns,
//! and `-----END <tag>-----`; a bundle is a concatenation of blocks.  Lines
//! end with LF; a trailing CR on a line is tolerated when parsing.  Text
//! between blocks is ignored; an unterminated block or a body that is not
//! canonical base64 is a parse failure.

use vstd::prelude::*;
use crate::b64::{spec_b64_encode_padded, spec_b64_decode_padded, spec_b64_encode_nopad,
    spec_b64_padding, spec_is_b64_char, lemma_b64_char_benign, lemma_encode_nopad_chars,
    lemma_b64_round_trip, b64_encode_padded, b64_decode_padded};

verus! {

/// One PEM block: a tag such as `CERTIFICATE` and the decoded contents.
pub struct PemBlock {
    pub tag: Vec<u8>,
    pub der: Vec<u8>,
}

/// The mathematical contents of a sequence of blocks.
pub open spec fn spec_blocks_of(v: Seq<PemBlock>) -> Seq<(Seq<u8>, Seq<u8>)> {
    v.map_values(|b: PemBlock| (b.tag@, b.der@))
}

// ---------------------------------------------------------------------------
// lines
// ---------------------------------------------------------------------------

/// Number of bytes before the first LF (or all of `s` if none).
pub open spec fn spec_line_len(s: Seq<u8>) -> nat
    decreases s.len(),
{
    if s.len() == 0 {
        0
    } else if s[0] == 10 {
        0
    } else {
        1 + spec_line_len(s.skip(1))
    }
}

/// A line with a trailing CR removed.
pub open spec fn spec_strip_cr(l: Seq<u8>) -> Seq<u8> {
    if l.len() > 0 && l[l.len() - 1] == 13 {
        l.take(l.len() - 1)
    } else {
        l
    }
}

/// `s` split at LF bytes, each line stripped of a trailing CR.
pub open spec fn spec_lines(s: Seq<u8>) -> Seq<Seq<u8>>
    decreases s.len(),
{
    if s.len() == 0 {
        Seq::empty()
    } else {
        let ll = spec_line_len(s);
        let line = spec_strip_cr(s.take(ll as int));
        let rest = if ll < s.len() {
            s.skip(ll as int + 1)
        } else {
            Seq::empty()
        };
        seq![line] + spec_lines(rest)
    }
}

/// Lines joined back into text, each followed by LF.
pub open spec fn spec_join_lines(ls: Seq<Seq<u8>>) -> Seq<u8>
    decreases ls.len(),
{
    if ls.len() == 0 {
        Seq::empty()
    } else {
        ls[0] + seq![10u8] + spec_join_lines(ls.skip(1))
    }
}

/// Concatenation of lines without separators (how a base64 body is read).
pub open spec fn spec_concat_lines(ls: Seq<Seq<u8>>) -> Seq<u8>
    decreases ls.len(),
{
    if ls.len() == 0 {
        Seq::empty()
    } else {
        ls[0] + spec_concat_lines(ls.skip(1))
    }
}

/// A line that survives a join/split round trip: no LF inside, no trailing CR.
pub open spec fn spec_clean_line(l: Seq<u8>) -> bool {
    (forall|k: int| 0 <= k < l.len() ==> l[k] != 10) && (l.len() > 0 ==> l[l.len() - 1] != 13)
}

proof fn lemma_line_len_bounds(s: Seq<u8>)
    ensures
        spec_line_len(s) <= s.len(),
        spec_line_len(s) < s.len() ==> s[spec_line_len(s) as int] == 10,
        forall|k: int| 0 <= k < spec_line_len(s) ==> s[k] != 10,
    decreases s.len(),
{
    if s.len() == 0 {
    } else if s[0] == 10 {
    } else {
        lemma_line_len_bounds(s.skip(1));
        assert forall|k: int| 0 <= k < spec_line_len(s) implies s[k] != 10 by {
            if k > 0 {
                assert(s.skip(1)[k - 1] == s[k]);
            }
        }
    }
}

proof fn lemma_line_len_scan(s: Seq<u8>, j: int)
    requires
        0 <= j <= s.len(),
        forall|k: int| 0 <= k < j ==> s[k] != 10,
        j == s.len() || s[j] == 10,
    ensures
        spec_line_len(s) == j,
    decreases j,
{
    if j == 0 {
    } else {
        lemma_line_len_scan(s.skip(1), j - 1);
    }
}

/// Splitting after a join returns the very lines, when they are clean.
proof fn lemma_lines_join_prefix(ls: Seq<Seq<u8>>, y: Seq<u8>)
    requires
        forall|i: int| 0 <= i < ls.len() ==> spec_clean_line(#[trigger] ls[i]),
    ensures
        spec_lines(spec_join_lines(ls) + y) == ls + spec_lines(y),
    decreases ls.len(),
{
    if ls.len() == 0 {
        assert(spec_join_lines(ls) + y =~= y);
        assert(ls + spec_lines(y) =~= spec_lines(y));
    } else {
        let l0 = ls[0];
        let s = spec_join_lines(ls) + y;
        assert(s =~= l0 + seq![10u8] + (spec_join_lines(ls.skip(1)) + y));
        assert(forall|k: int| 0 <= k < l0.len() ==> s[k] == l0[k]);
        assert(s[l0.len() as int] == 10);
        lemma_line_len_scan(s, l0.len() as int);
        assert(s.take(l0.len() as int) =~= l0);
        assert(spec_strip_cr(l0) == l0);
        assert(s.skip(l0.len() as int + 1) =~= spec_join_lines(ls.skip(1)) + y);
        lemma_lines_join_prefix(ls.skip(1), y);
        assert(s.len() > 0);
        assert(spec_lines(s) =~= ls + spec_lines(y));
    }
}

/// Joining distributes over concatenation of line lists.
proof fn lemma_join_concat(a: Seq<Seq<u8>>, b: Seq<Seq<u8>>)
    ensures
        spec_join_lines(a + b) == spec_join_lines(a) + spec_join_lines(b),
    decreases a.len(),
{
    if a.len() == 0 {
        assert(a + b =~= b);
        assert(spec_join_lines(a) + spec_join_lines(b) =~= spec_join_lines(b));
    } else {
        lemma_join_concat(a.skip(1), b);
        assert((a + b).skip(1) =~= a.skip(1) + b);
        assert(spec_join_lines(a + b) =~= spec_join_lines(a) + spec_join_lines(b));
    }
}

// ---------------------------------------------------------------------------
// base64 body wrapping
// ---------------------------------------------------------------------------

/// A base64 body cut into lines of at most 64 characters.
pub open spec fn spec_wrap_lines(s: Seq<u8>) -> Seq<Seq<u8>>
    decreases s.len(),
{
    if s.len() == 0 {
        Seq::empty()
    } else if s.len() <= 64 {
        seq![s]
    } else {
        seq![s.take(64)] + spec_wrap_lines(s.skip(64))
    }
}

proof fn lemma_wrap_concat(s: Seq<u8>)
    ensures
        spec_concat_lines(spec_wrap_lines(s)) == s,
    decreases s.len(),
{
    if s.len() == 0 {
        assert(spec_concat_lines(spec_wrap_lines(s)) =~= s);
    } else if s.len() <= 64 {
        assert(spec_wrap_lines(s).skip(1) =~= Seq::<Seq<u8>>::empty());
        assert(spec_concat_lines(Seq::<Seq<u8>>::empty()) =~= Seq::<u8>::empty());
        assert(spec_concat_lines(spec_wrap_lines(s)) =~= s);
    } else {
        lemma_wrap_concat(s.skip(64));
        assert(spec_wrap_lines(s).skip(1) =~= spec_wrap_lines(s.skip(64)));
        assert(spec_concat_lines(spec_wrap_lines(s)) =~= s);
    }
}

/// A character of a base64 body: an alphabet character or `=`.
pub open spec fn spec_b64_or_pad(c: u8) -> bool {
    spec_is_b64_char(false, c) || c == 61
}

proof fn lemma_wrap_lines_chars(s: Seq<u8>)
    requires
        forall|k: int| 0 <= k < s.len() ==> spec_b64_or_pad(#[trigger] s[k]),
    ensures
        forall|i: int|
            0 <= i < spec_wrap_lines(s).len() ==> {
                let l = #[trigger] spec_wrap_lines(s)[i];
                l.len() > 0 && forall|k: int| 0 <= k < l.len() ==> spec_b64_or_pad(#[trigger] l[k])
            },
    decreases s.len(),
{
    if s.len() == 0 {
    } else if s.len() <= 64 {
    } else {
        assert(forall|k: int|
            0 <= k < s.skip(64).len() ==> spec_b64_or_pad(#[trigger] s.skip(64)[k]));
        lemma_wrap_lines_chars(s.skip(64));
        assert forall|i: int| 0 <= i < spec_wrap_lines(s).len() implies {
            let l = #[trigger] spec_wrap_lines(s)[i];
            l.len() > 0 && forall|k: int| 0 <= k < l.len() ==> spec_b64_or_pad(#[trigger] l[k])
        } by {
            if i >= 1 {
                assert(spec_wrap_lines(s)[i] == spec_wrap_lines(s.skip(64))[i - 1]);
            } else {
                assert(forall|k: int| 0 <= k < 64 ==> s.take(64)[k] == s[k]);
            }
        }
    }
}

// ---------------------------------------------------------------------------
// block structure
// ---------------------------------------------------------------------------

/// `-----BEGIN ` as bytes.
pub open spec fn spec_begin_prefix() -> Seq<u8> {
    seq![45u8, 45u8, 45u8, 45u8, 45u8, 66u8, 69u8, 71u8, 73u8, 78u8, 32u8]
}

/// `-----END ` as bytes.
pub open spec fn spec_end_prefix() -> Seq<u8> {
    seq![45u8, 45u8, 45u8, 45u8, 45u8, 69u8, 78u8, 68u8, 32u8]
}

/// `-----` as bytes.
pub open spec fn spec_dashes() -> Seq<u8> {
    seq![45u8, 45u8, 45u8, 45u8, 45u8]
}

pub open spec fn spec_begin_line(tag: Seq<u8>) -> Seq<u8> {
    spec_begin_prefix() + tag + spec_dashes()
}

pub open spec fn spec_end_line(tag: Seq<u8>) -> Seq<u8> {
    spec_end_prefix() + tag + spec_dashes()
}

pub open spec fn spec_is_begin_line(l: Seq<u8>) -> bool {
    l.len() >= 16 && l.take(11) == spec_begin_prefix() && l.skip(l.len() - 5) == spec_dashes()
}

pub open spec fn spec_tag_of(l: Seq<u8>) -> Seq<u8> {
    l.subrange(11, l.len() - 5)
}

/// A tag that survives the text round trip: no LF inside.
pub open spec fn spec_wf_tag(tag: Seq<u8>) -> bool {
    forall|k: int| 0 <= k < tag.len() ==> tag[k] != 10
}

/// The lines of one block.
pub open spec fn spec_block_lines(tag: Seq<u8>, der: Seq<u8>) -> Seq<Seq<u8>> {
    seq![spec_begin_line(tag)] + spec_wrap_lines(spec_b64_encode_padded(der)) + seq![
        spec_end_line(tag),
    ]
}

/// The text of one block.
pub open spec fn spec_pem_block_text(tag: Seq<u8>, der: Seq<u8>) -> Seq<u8> {
    spec_join_lines(spec_block_lines(tag, der))
}

/// The text of a bundle: blocks one after the other.
pub open spec fn spec_pem_bundle_text(blocks: Seq<(Seq<u8>, Seq<u8>)>) -> Seq<u8>
    decreases blocks.len(),
{
    if blocks.len() == 0 {
        Seq::empty()
    } else {
        spec_pem_block_text(blocks[0].0, blocks[0].1) + spec_pem_bundle_text(blocks.skip(1))
    }
}

// ---------------------------------------------------------------------------
// parsing
// ---------------------------------------------------------------------------

/// Index of the first line equal to `-----END <tag>-----`, or -1.
pub open spec fn spec_find_end(ls: Seq<Seq<u8>>, tag: Seq<u8>) -> int
    decreases ls.len(),
{
    if ls.len() == 0 {
        -1
    } else if ls[0] == spec_end_line(tag) {
        0
    } else {
        let r = spec_find_end(ls.skip(1), tag);
        if r < 0 {
            -1
        } else {
            1 + r
        }
    }
}

/// Parsing a list of lines into blocks.  Lines outside blocks are ignored;
/// a block without its end line, or with a body that is not canonical
/// base64, fails.
pub open spec fn spec_parse_blocks(ls: Seq<Seq<u8>>) -> Option<Seq<(Seq<u8>, Seq<u8>)>>
    decreases ls.len(),
{
    if ls.len() == 0 {
        Some(Seq::empty())
    } else if spec_is_begin_line(ls[0]) {
        let tag = spec_tag_of(ls[0]);
        let j = spec_find_end(ls.skip(1), tag);
        if j < 0 || j + 2 > ls.len() {
            None
        } else {
            let body = ls.skip(1).take(j);
            match spec_b64_decode_padded(spec_concat_lines(body)) {
                None => None,
                Some(der) => match spec_parse_blocks(ls.skip(j + 2)) {
                    None => None,
                    Some(blocks) => Some(seq![(tag, der)] + blocks),
                },
            }
        }
    } else {
        spec_parse_blocks(ls.skip(1))
    }
}

/// Parsing PEM text into blocks.
pub open spec fn spec_parse_pem(s: Seq<u8>) -> Option<Seq<(Seq<u8>, Seq<u8>)>> {
    spec_parse_blocks(spec_lines(s))
}

proof fn lemma_find_end_bound(ls: Seq<Seq<u8>>, tag: Seq<u8>)
    ensures
        spec_find_end(ls, tag) < ls.len(),
        spec_find_end(ls, tag) >= 0 ==> ls[spec_find_end(ls, tag)] == spec_end_line(tag),
    decreases ls.len(),
{
    if ls.len() == 0 {
    } else if ls[0] == spec_end_line(tag) {
    } else {
        lemma_find_end_bound(ls.skip(1), tag);
    }
}

proof fn lemma_find_end_at(ls: Seq<Seq<u8>>, tag: Seq<u8>, j: int)
    requires
        0 <= j < ls.len(),
        forall|k: int| 0 <= k < j ==> ls[k] != spec_end_line(tag),
        ls[j] == spec_end_line(tag),
    ensures
        spec_find_end(ls, tag) == j,
    decreases j,
{
    if j == 0 {
    } else {
        lemma_find_end_at(ls.skip(1), tag, j - 1);
    }
}

/// Parsing consumes one well-formed block from the front.
proof fn lemma_parse_one_block(tag: Seq<u8>, der: Seq<u8>, rest: Seq<Seq<u8>>)
    requires
        spec_wf_tag(tag),
    ensures
        spec_parse_blocks(spec_block_lines(tag, der) + rest) == match spec_parse_blocks(rest) {
            None => None::<Seq<(Seq<u8>, Seq<u8>)>>,
            Some(blocks) => Some(seq![(tag, der)] + blocks),
        },
{
    let enc = spec_b64_encode_padded(der);
    let wl = spec_wrap_lines(enc);
    let ls = spec_block_lines(tag, der) + rest;
    let bl = spec_begin_line(tag);
    assert(ls[0] == bl);
    // the begin line is recognised and yields the tag back
    assert(bl.len() == 16 + tag.len());
    assert(bl.take(11) =~= spec_begin_prefix());
    assert(bl.skip(bl.len() - 5) =~= spec_dashes());
    assert(spec_tag_of(bl) =~= tag);
    // body lines are base64 characters, hence not the end line
    assert forall|k: int| 0 <= k < enc.len() implies spec_b64_or_pad(#[trigger] enc[k]) by {
        lemma_encode_nopad_chars(false, der);
        if k < spec_b64_encode_nopad(false, der).len() {
        } else {
            assert(enc[k] == spec_b64_padding(der.len())[k - spec_b64_encode_nopad(
                false,
                der,
            ).len()]);
        }
    }
    lemma_wrap_lines_chars(enc);
    assert(spec_end_line(tag)[0] == 45);
    assert forall|k: int| 0 <= k < wl.len() implies #[trigger] wl[k] != spec_end_line(tag) by {
        assert(wl[k].len() > 0);
        assert(spec_b64_or_pad(wl[k][0]));
        if wl[k] == spec_end_line(tag) {
            assert(wl[k][0] == 45);
            if spec_is_b64_char(false, 45u8) {
                lemma_b64_char_benign(false, 45u8);
            }
        }
    }
    // the end line is found right after the body
    let tail = ls.skip(1);
    assert(tail =~= wl + seq![spec_end_line(tag)] + rest);
    assert(forall|k: int| 0 <= k < wl.len() ==> tail[k] == wl[k]);
    assert(tail[wl.len() as int] == spec_end_line(tag));
    lemma_find_end_at(tail, tag, wl.len() as int);
    let j = spec_find_end(tail, tag);
    assert(j == wl.len());
    assert(j >= 0 && j + 2 <= ls.len());
    assert(tail.take(j) =~= wl);
    lemma_wrap_concat(enc);
    lemma_b64_round_trip(der);
    assert(spec_b64_decode_padded(spec_concat_lines(wl)) == Some(der));
    assert(ls.skip(j + 2) =~= rest);
}

/// Each line a block writes is clean: no LF inside, no trailing CR.
proof fn lemma_block_lines_clean(tag: Seq<u8>, der: Seq<u8>)
    requires
        spec_wf_tag(tag),
    ensures
        forall|i: int|
            0 <= i < spec_block_lines(tag, der).len() ==> spec_clean_line(
                #[trigger] spec_block_lines(tag, der)[i],
            ),
{
    let enc = spec_b64_encode_padded(der);
    let wl = spec_wrap_lines(enc);
    assert forall|k: int| 0 <= k < enc.len() implies spec_b64_or_pad(#[trigger] enc[k]) by {
        lemma_encode_nopad_chars(false, der);
        if k < spec_b64_encode_nopad(false, der).len() {
        } else {
            assert(enc[k] == spec_b64_padding(der.len())[k - spec_b64_encode_nopad(
                false,
                der,
            ).len()]);
        }
    }
    lemma_wrap_lines_chars(enc);
    assert forall|i: int| 0 <= i < spec_block_lines(tag, der).len() implies spec_clean_line(
        #[trigger] spec_block_lines(tag, der)[i],
    ) by {
        let l = spec_block_lines(tag, der)[i];
        if i == 0 {
            assert(l == spec_begin_line(tag));
            assert(l[l.len() - 1] == 45);
            assert(forall|k: int| 0 <= k < l.len() ==> l[k] != 10) by {
                assert(forall|k: int|
                    0 <= k < 11 ==> spec_begin_line(tag)[k] == spec_begin_prefix()[k]);
                assert(forall|k: int|
                    11 <= k < 11 + tag.len() ==> spec_begin_line(tag)[k] == tag[k - 11]);
                assert(forall|k: int|
                    11 + tag.len() <= k < spec_begin_line(tag).len() ==> spec_begin_line(tag)[k]
                        == spec_dashes()[k - 11 - tag.len()]);
            }
        } else if i == spec_block_lines(tag, der).len() - 1 {
            assert(l == spec_end_line(tag));
            assert(l[l.len() - 1] == 45);
            assert(forall|k: int| 0 <= k < l.len() ==> l[k] != 10) by {
                assert(forall|k: int|
                    0 <= k < 9 ==> spec_end_line(tag)[k] == spec_end_prefix()[k]);
                assert(forall|k: int|
                    9 <= k < 9 + tag.len() ==> spec_end_line(tag)[k] == tag[k - 9]);
                assert(forall|k: int|
                    9 + tag.len() <= k < spec_end_line(tag).len() ==> spec_end_line(tag)[k]
                        == spec_dashes()[k - 9 - tag.len()]);
            }
        } else {
            assert(l == wl[i - 1]);
            assert(l.len() > 0 && forall|k: int| 0 <= k < l.len() ==> spec_b64_or_pad(
                #[trigger] l[k],
            ));
            assert forall|k: int| 0 <= k < l.len() implies l[k] != 10 by {
                if spec_is_b64_char(false, l[k]) {
                    lemma_b64_char_benign(false, l[k]);
                }
            }
            assert(l[l.len() - 1] != 13) by {
                if spec_is_b64_char(false, l[l.len() - 1]) {
                    lemma_b64_char_benign(false, l[l.len() - 1]);
                }
            }
        }
    }
}

/// Round trip: parsing the text of a bundle returns its very blocks.
pub proof fn lemma_pem_round_trip(blocks: Seq<(Seq<u8>, Seq<u8>)>)
    requires
        forall|i: int| 0 <= i < blocks.len() ==> spec_wf_tag(#[trigger] blocks[i].0),
    ensures
        spec_parse_pem(spec_pem_bundle_text(blocks)) == Some(blocks),
    decreases blocks.len(),
{
    if blocks.len() == 0 {
        assert(spec_pem_bundle_text(blocks) =~= Seq::<u8>::empty());
    } else {
        let tag = blocks[0].0;
        let der = blocks[0].1;
        let rest_text = spec_pem_bundle_text(blocks.skip(1));
        assert(spec_pem_bundle_text(blocks) == spec_pem_block_text(tag, der) + rest_text);
        lemma_block_lines_clean(tag, der);
        lemma_lines_join_prefix(spec_block_lines(tag, der), rest_text);
        assert(spec_lines(spec_pem_bundle_text(blocks)) == spec_block_lines(tag, der)
            + spec_lines(rest_text));
        lemma_pem_round_trip(blocks.skip(1));
        lemma_parse_one_block(tag, der, spec_lines(rest_text));
        assert(Some(seq![(tag, der)] + blocks.skip(1)) =~~= Some(blocks));
    }
}

/// Parsing text that begins with one well-formed block followed by LF
/// consumes that block and goes on with the rest.
pub proof fn lemma_parse_prefixed_bundle(tag: Seq<u8>, der: Seq<u8>, rest: Seq<u8>)
    requires
        spec_wf_tag(tag),
    ensures
        spec_parse_pem(spec_pem_block_text(tag, der) + seq![10u8] + rest) == match spec_parse_pem(
            rest,
        ) {
            None => None::<Seq<(Seq<u8>, Seq<u8>)>>,
            Some(bs) => Some(seq![(tag, der)] + bs),
        },
{
    let mid = seq![10u8] + rest;
    lemma_block_lines_clean(tag, der);
    lemma_lines_join_prefix(spec_block_lines(tag, der), mid);
    // the LF alone is one empty line before the rest
    assert(mid[0] == 10);
    assert(spec_line_len(mid) == 0);
    assert(mid.take(0) =~= Seq::<u8>::empty());
    assert(spec_strip_cr(Seq::<u8>::empty()) =~= Seq::<u8>::empty());
    assert(mid.skip(1) =~= rest);
    assert(spec_lines(mid) == seq![Seq::<u8>::empty()] + spec_lines(rest));
    let rest_lines = seq![Seq::<u8>::empty()] + spec_lines(rest);
    lemma_parse_one_block(tag, der, rest_lines);
    // an empty line opens no block
    assert(!spec_is_begin_line(rest_lines[0]));
    assert(rest_lines.skip(1) =~= spec_lines(rest));
    assert(spec_parse_blocks(rest_lines) == spec_parse_blocks(spec_lines(rest)));
    assert((spec_pem_block_text(tag, der) + seq![10u8] + rest) =~= spec_pem_block_text(tag, der)
        + mid);
    assert(spec_lines(spec_pem_block_text(tag, der) + mid) =~= spec_block_lines(tag, der)
        + rest_lines);
}

// ---------------------------------------------------------------------------
// executable code
// ---------------------------------------------------------------------------

/// Bytewise equality of two slices.
pub fn eq_bytes(a: &[u8], b: &[u8]) -> (r: bool)
    ensures
        r <==> a@ == b@,
{
    if a.len() != b.len() {
        proof {
            assert(a@.len() != b@.len());
        }
        return false;
    }
    let n = a.len();
    let mut i: usize = 0;
    while i < n
        invariant
            i <= n,
            n == a@.len() && n == b@.len(),
            forall|k: int| 0 <= k < i ==> a@[k] == b@[k],
        decreases n - i,
    {
        if a[i] != b[i] {
            return false;
        }
        i = i + 1;
    }
    proof {
        assert(a@ =~= b@);
    }
    true
}

/// `-----BEGIN ` as bytes.
fn begin_prefix() -> (r: Vec<u8>)
    ensures
        r@ == spec_begin_prefix(),
{
    let r: Vec<u8> = vec![45, 45, 45, 45, 45, 66, 69, 71, 73, 78, 32];
    proof {
        assert(r@ =~= spec_begin_prefix());
    }
    r
}

/// `-----END ` as bytes.
fn end_prefix() -> (r: Vec<u8>)
    ensures
        r@ == spec_end_prefix(),
{
    let r: Vec<u8> = vec![45, 45, 45, 45, 45, 69, 78, 68, 32];
    proof {
        assert(r@ =~= spec_end_prefix());
    }
    r
}

/// `-----` as bytes.
fn dashes() -> (r: Vec<u8>)
    ensures
        r@ == spec_dashes(),
{
    let r: Vec<u8> = vec![45, 45, 45, 45, 45];
    proof {
        assert(r@ =~= spec_dashes());
    }
    r
}

/// Does the line open a block?
fn is_begin_line(l: &[u8]) -> (r: bool)
    ensures
        r == spec_is_begin_line(l@),
{
    if l.len() < 16 {
        return false;
    }
    let p = begin_prefix();
    let d = dashes();
    let head = vstd::slice::slice_subrange(l, 0, 11);
    let tail = vstd::slice::slice_subrange(l, l.len() - 5, l.len());
    let r = eq_bytes(head, p.as_slice()) && eq_bytes(tail, d.as_slice());
    proof {
        assert(head@ == l@.take(11));
        assert(tail@ == l@.skip(l@.len() - 5));
    }
    r
}

/// The end line `-----END <tag>-----` for a tag.
fn make_end_line(tag: &[u8]) -> (r: Vec<u8>)
    ensures
        r@ == spec_end_line(tag@),
{
    let mut r = end_prefix();
    r.extend_from_slice(tag);
    let d = dashes();
    r.extend_from_slice(d.as_slice());
    proof {
        assert(r@ =~= spec_end_line(tag@));
    }
    r
}

/// `s` split at LF bytes, each line stripped of a trailing CR.
pub fn split_lines(s: &[u8]) -> (r: Vec<Vec<u8>>)
    ensures
        r.deep_view() == spec_lines(s@),
{
    let n = s.len();
    let mut out: Vec<Vec<u8>> = Vec::new();
    let mut pos: usize = 0;
    proof {
        assert(s@.skip(0) =~= s@);
        assert(out.deep_view() =~= Seq::<Seq<u8>>::empty());
        assert(out.deep_view() + spec_lines(s@) =~= spec_lines(s@));
    }
    while pos < n
        invariant
            pos <= n,
            n == s@.len(),
            spec_lines(s@) == out.deep_view() + spec_lines(s@.skip(pos as int)),
        decreases n - pos,
    {
        let ghost suffix = s@.skip(pos as int);
        // length of the current line
        let mut j: usize = pos;
        while j < n && s[j] != 10
            invariant
                pos <= j <= n,
                n == s@.len(),
                forall|k: int| pos <= k < j ==> s@[k] != 10,
            decreases n - j,
        {
            j = j + 1;
        }
        proof {
            assert forall|k: int| 0 <= k < j - pos implies suffix[k] != 10 by {
                assert(suffix[k] == s@[pos + k]);
            }
            if j < n {
                assert(suffix[j - pos] == s@[j as int]);
            }
            lemma_line_len_scan(suffix, j - pos);
        }
        // strip a trailing CR
        let line_end: usize = if j > pos && s[j - 1] == 13 {
            j - 1
        } else {
            j
        };
        let line_slice = vstd::slice::slice_subrange(s, pos, line_end);
        let line = vstd::slice::slice_to_vec(line_slice);
        proof {
            let ll = spec_line_len(suffix) as int;
            assert(suffix.take(ll) =~= s@.subrange(pos as int, j as int));
            if j > pos && s@[j - 1] == 13 {
                assert(spec_strip_cr(suffix.take(ll)) =~= s@.subrange(
                    pos as int,
                    line_end as int,
                ));
            } else {
                assert(spec_strip_cr(suffix.take(ll)) =~= s@.subrange(
                    pos as int,
                    line_end as int,
                ));
            }
            assert(line@ == spec_strip_cr(suffix.take(ll)));
        }
        out.push(line);
        let new_pos: usize = if j < n {
            j + 1
        } else {
            n
        };
        proof {
            let ll = spec_line_len(suffix) as int;
            if j < n {
                assert(suffix.skip(ll + 1) =~= s@.skip(new_pos as int));
            } else {
                assert(s@.skip(new_pos as int) =~= Seq::<u8>::empty());
            }
            assert(spec_lines(suffix) == seq![line@] + spec_lines(s@.skip(new_pos as int)));
            assert(out.deep_view() + spec_lines(s@.skip(new_pos as int)) =~~= spec_lines(s@));
        }
        pos = new_pos;
    }
    proof {
        assert(spec_lines(s@.skip(pos as int)) =~= Seq::<Seq<u8>>::empty());
        assert(out.deep_view() =~~= spec_lines(s@));
    }
    out
}

/// Index of the first line at or after `k` equal to the end line, if any.
fn find_end_from(lines: &Vec<Vec<u8>>, k: usize, end: &Vec<u8>, Ghost(tag): Ghost<Seq<u8>>) -> (r:
    Option<usize>)
    requires
        k <= lines@.len(),
        end@ == spec_end_line(tag),
    ensures
        match r {
            Some(j) => k <= j < lines@.len() && spec_find_end(lines.deep_view().skip(k as int), tag)
                == j - k,
            None => spec_find_end(lines.deep_view().skip(k as int), tag) == -1,
        },
    decreases lines@.len() - k,
{
    if k == lines.len() {
        return None;
    }
    if eq_bytes(lines[k].as_slice(), end.as_slice()) {
        proof {
            assert(lines.deep_view().skip(k as int)[0] == lines@[k as int]@);
        }
        return Some(k);
    }
    let r = find_end_from(lines, k + 1, end, Ghost(tag));
    proof {
        assert(lines.deep_view().skip(k as int)[0] == lines@[k as int]@);
        assert(lines.deep_view().skip(k as int).skip(1) =~= lines.deep_view().skip(k + 1));
    }
    match r {
        Some(j) => Some(j),
        None => None,
    }
}

/// Concatenation of the lines with indices in `[from, to)`.
fn concat_range(lines: &Vec<Vec<u8>>, from: usize, to: usize) -> (r: Vec<u8>)
    requires
        from <= to <= lines@.len(),
    ensures
        r@ == spec_concat_lines(lines.deep_view().subrange(from as int, to as int)),
    decreases to - from,
{
    if from == to {
        proof {
            assert(lines.deep_view().subrange(from as int, to as int)
                =~= Seq::<Seq<u8>>::empty());
        }
        return Vec::new();
    }
    let mut r: Vec<u8> = Vec::new();
    r.extend_from_slice(lines[from].as_slice());
    let mut tail = concat_range(lines, from + 1, to);
    r.append(&mut tail);
    proof {
        let sub = lines.deep_view().subrange(from as int, to as int);
        assert(sub[0] == lines@[from as int]@);
        assert(sub.skip(1) =~= lines.deep_view().subrange(from + 1, to as int));
        assert(r@ =~= spec_concat_lines(sub));
    }
    r
}

/// Parsing of the lines from index `i` on.
fn parse_blocks_from(lines: &Vec<Vec<u8>>, i: usize) -> (r: Option<Vec<PemBlock>>)
    requires
        i <= lines@.len(),
    ensures
        match r {
            Some(v) => spec_parse_blocks(lines.deep_view().skip(i as int)) == Some(
                spec_blocks_of(v@),
            ),
            None => spec_parse_blocks(lines.deep_view().skip(i as int)) is None,
        },
    decreases lines@.len() - i,
{
    let ghost ls = lines.deep_view().skip(i as int);
    if i == lines.len() {
        let r: Vec<PemBlock> = Vec::new();
        proof {
            assert(ls =~= Seq::<Seq<u8>>::empty());
            assert(spec_blocks_of(r@) =~= Seq::<(Seq<u8>, Seq<u8>)>::empty());
        }
        return Some(r);
    }
    proof {
        assert(ls[0] == lines@[i as int]@);
        assert(ls.skip(1) =~= lines.deep_view().skip(i + 1));
    }
    if is_begin_line(lines[i].as_slice()) {
        let l = &lines[i];
        let tag_slice = vstd::slice::slice_subrange(l.as_slice(), 11, l.len() - 5);
        let tag = vstd::slice::slice_to_vec(tag_slice);
        proof {
            assert(tag@ == spec_tag_of(ls[0]));
        }
        let end = make_end_line(tag.as_slice());
        match find_end_from(lines, i + 1, &end, Ghost(tag@)) {
            None => None,
            Some(j) => {
                let ghost sj = spec_find_end(ls.skip(1), tag@);
                proof {
                    assert(sj == j - i - 1);
                    assert(sj >= 0 && sj + 2 <= ls.len());
                }
                let body = concat_range(lines, i + 1, j);
                proof {
                    assert(lines.deep_view().subrange(i + 1, j as int) =~= ls.skip(1).take(sj));
                }
                match b64_decode_padded(body.as_slice()) {
                    None => None,
                    Some(der) => {
                        proof {
                            assert(ls.skip(sj + 2) =~= lines.deep_view().skip(j + 1));
                        }
                        match parse_blocks_from(lines, j + 1) {
                            None => None,
                            Some(mut rest) => {
                                let block = PemBlock { tag, der };
                                rest.insert(0, block);
                                proof {
                                    assert(spec_blocks_of(rest@) =~= seq![
                                        (spec_tag_of(ls[0]), spec_b64_decode_padded(
                                            spec_concat_lines(ls.skip(1).take(sj)),
                                        ).unwrap()),
                                    ] + spec_blocks_of(rest@.skip(1)));
                                }
                                Some(rest)
                            },
                        }
                    },
                }
            },
        }
    } else {
        parse_blocks_from(lines, i + 1)
    }
}

/// Parse PEM text into its blocks.
pub fn pem_parse(s: &[u8]) -> (r: Option<Vec<PemBlock>>)
    ensures
        match r {
            Some(v) => spec_parse_pem(s@) == Some(spec_blocks_of(v@)),
            None => spec_parse_pem(s@) is None,
        },
{
    let lines = split_lines(s);
    proof {
        assert(lines.deep_view().skip(0) =~= lines.deep_view());
    }
    parse_blocks_from(&lines, 0)
}

/// Write one block: begin line, base64 body wrapped at 64 columns, end line.
pub fn pem_encode_block(tag: &[u8], der: &[u8]) -> (r: Vec<u8>)
    ensures
        r@ == spec_pem_block_text(tag@, der@),
{
    let enc = b64_encode_padded(der);
    let mut out = begin_prefix();
    out.extend_from_slice(tag);
    let d = dashes();
    out.extend_from_slice(d.as_slice());
    out.push(10);
    proof {
        assert(out@ =~= spec_begin_line(tag@) + seq![10u8]);
    }
    // body
    let ghost body_start = out@;
    let n = enc.len();
    let mut p: usize = 0;
    proof {
        assert(enc@.skip(0) =~= enc@);
    }
    while n - p > 64
        invariant
            p <= n,
            n == enc@.len(),
            out@ + spec_join_lines(spec_wrap_lines(enc@.skip(p as int))) == body_start
                + spec_join_lines(spec_wrap_lines(enc@)),
        decreases n - p,
    {
        let chunk = vstd::slice::slice_subrange(enc.as_slice(), p, p + 64);
        out.extend_from_slice(chunk);
        out.push(10);
        proof {
            let suf = enc@.skip(p as int);
            assert(suf.take(64) =~= chunk@);
            assert(suf.skip(64) =~= enc@.skip(p + 64));
            assert(spec_wrap_lines(suf) == seq![suf.take(64)] + spec_wrap_lines(suf.skip(64)));
            assert(spec_wrap_lines(suf).skip(1) =~= spec_wrap_lines(suf.skip(64)));
            assert(spec_join_lines(spec_wrap_lines(suf)) =~= chunk@ + seq![10u8]
                + spec_join_lines(spec_wrap_lines(enc@.skip(p + 64))));
        }
        p = p + 64;
    }
    if n - p > 0 {
        let chunk = vstd::slice::slice_subrange(enc.as_slice(), p, n);
        out.extend_from_slice(chunk);
        out.push(10);
        proof {
            let suf = enc@.skip(p as int);
            assert(suf =~= chunk@);
            assert(spec_wrap_lines(suf) == seq![suf]);
            assert(spec_wrap_lines(suf).skip(1) =~= Seq::<Seq<u8>>::empty());
            assert(spec_join_lines(Seq::<Seq<u8>>::empty()) =~= Seq::<u8>::empty());
            assert(spec_join_lines(spec_wrap_lines(suf)) =~= chunk@ + seq![10u8]);
            assert(out@ =~= body_start + spec_join_lines(spec_wrap_lines(enc@)));
        }
    } else {
        proof {
            assert(enc@.skip(p as int) =~= Seq::<u8>::empty());
            assert(spec_wrap_lines(Seq::<u8>::empty()) =~= Seq::<Seq<u8>>::empty());
            assert(spec_join_lines(Seq::<Seq<u8>>::empty()) =~= Seq::<u8>::empty());
            assert(out@ =~= body_start + spec_join_lines(spec_wrap_lines(enc@)));
        }
    }
    // end line
    let mut endl = make_end_line(tag);
    out.append(&mut endl);
    out.push(10);
    proof {
        let bl = spec_block_lines(tag@, der@);
        assert(bl =~= seq![spec_begin_line(tag@)] + bl.skip(1));
        assert(bl.skip(1).skip(bl.len() - 2) =~= seq![spec_end_line(tag@)]);
        lemma_join_concat(seq![spec_begin_line(tag@)], bl.skip(1));
        lemma_join_concat(spec_wrap_lines(spec_b64_encode_padded(der@)), seq![
            spec_end_line(tag@),
        ]);
        assert(bl.skip(1) =~= spec_wrap_lines(spec_b64_encode_padded(der@)) + seq![
            spec_end_line(tag@),
        ]);
        assert(seq![spec_end_line(tag@)].skip(1) =~= Seq::<Seq<u8>>::empty());
        assert(seq![spec_begin_line(tag@)].skip(1) =~= Seq::<Seq<u8>>::empty());
        assert(spec_join_lines(Seq::<Seq<u8>>::empty()) =~= Seq::<u8>::empty());
        assert(spec_join_lines(seq![spec_end_line(tag@)]) =~= spec_end_line(tag@) + seq![10u8]);
        assert(spec_join_lines(seq![spec_begin_line(tag@)]) =~= spec_begin_line(tag@) + seq![
            10u8,
        ]);
        assert(out@ =~= spec_pem_block_text(tag@, der@));
    }
    out
}

/// Write a bundle: its blocks one after the other.
pub fn pem_encode_bundle(blocks: &Vec<PemBlock>) -> (r: Vec<u8>)
    ensures
        r@ == spec_pem_bundle_text(spec_blocks_of(blocks@)),
{
    let mut out: Vec<u8> = Vec::new();
    let n = blocks.len();
    let mut i: usize = 0;
    proof {
        assert(spec_blocks_of(blocks@).skip(0) =~= spec_blocks_of(blocks@));
    }
    while i < n
        invariant
            i <= n,
            n == blocks@.len(),
            out@ + spec_pem_bundle_text(spec_blocks_of(blocks@).skip(i as int))
                == spec_pem_bundle_text(spec_blocks_of(blocks@)),
        decreases n - i,
    {
        let mut one = pem_encode_block(blocks[i].tag.as_slice(), blocks[i].der.as_slice());
        out.append(&mut one);
        proof {
            let bs = spec_blocks_of(blocks@);
            assert(bs.skip(i as int)[0] == (blocks@[i as int].tag@, blocks@[i as int].der@));
            assert(bs.skip(i as int).skip(1) =~= bs.skip(i + 1));
        }
        i = i + 1;
    }
    proof {
        assert(spec_pem_bundle_text(spec_blocks_of(blocks@).skip(i as int)) =~= Seq::<u8>::empty());
    }
    out
}

} // verus!
