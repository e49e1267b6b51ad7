//! Base64 codec (standard and URL-safe alphabets) over byte sequences.
//!
//! The standard, padded form is what PEM bodies carry; the URL-safe form
//! without padding is what JOSE envelopes, CSR submission and cache key
//! derivation use.  Encoding and decoding are specified functionally and the
//! executable code is proved to match; decoding inverts encoding.

use vstd::prelude::*;

verus! {

/// The character for a six-bit value, in the standard (`+`, `/`) or the
/// URL-safe (`-`, `_`) alphabet.
pub open spec fn spec_b64_char(url: bool, v: u8) -> u8 {
    if v < 26 {
        (65 + v) as u8  // 'A'..'Z'
    } else if v < 52 {
        (97 + (v - 26)) as u8  // 'a'..'z'
    } else if v < 62 {
        (48 + (v - 52)) as u8  // '0'..'9'
    } else if v == 62 {
        if url {
            45u8  // '-'
        } else {
            43u8  // '+'
        }
    } else {
        if url {
            95u8  // '_'
        } else {
            47u8  // '/'
        }
    }
}

/// The six-bit value of a standard-alphabet character, or 255 if the byte is
/// not in the alphabet.
pub open spec fn spec_b64_val(c: u8) -> u8 {
    if 65 <= c < 91 {
        (c - 65) as u8
    } else if 97 <= c < 123 {
        ((c - 97) + 26) as u8
    } else if 48 <= c < 58 {
        ((c - 48) + 52) as u8
    } else if c == 43 {
        62u8
    } else if c == 47 {
        63u8
    } else {
        255u8
    }
}

/// Base64 without padding: three input bytes become four characters; a final
/// one or two bytes become two or three characters.
pub open spec fn spec_b64_encode_nopad(url: bool, s: Seq<u8>) -> Seq<u8>
    decreases s.len(),
{
    if s.len() == 0 {
        Seq::empty()
    } else if s.len() == 1 {
        seq![
            spec_b64_char(url, s[0] >> 2),
            spec_b64_char(url, (s[0] & 3) << 4),
        ]
    } else if s.len() == 2 {
        seq![
            spec_b64_char(url, s[0] >> 2),
            spec_b64_char(url, ((s[0] & 3) << 4) | (s[1] >> 4)),
            spec_b64_char(url, (s[1] & 15) << 2),
        ]
    } else {
        seq![
            spec_b64_char(url, s[0] >> 2),
            spec_b64_char(url, ((s[0] & 3) << 4) | (s[1] >> 4)),
            spec_b64_char(url, ((s[1] & 15) << 2) | (s[2] >> 6)),
            spec_b64_char(url, s[2] & 63),
        ] + spec_b64_encode_nopad(url, s.skip(3))
    }
}

/// The `=` padding that the standard, padded form appends.
pub open spec fn spec_b64_padding(n: nat) -> Seq<u8> {
    if n % 3 == 1 {
        seq![61u8, 61u8]
    } else if n % 3 == 2 {
        seq![61u8]
    } else {
        Seq::empty()
    }
}

/// Standard-alphabet base64 with `=` padding, as PEM bodies carry it.
pub open spec fn spec_b64_encode_padded(s: Seq<u8>) -> Seq<u8> {
    spec_b64_encode_nopad(false, s) + spec_b64_padding(s.len())
}

/// Decoding of padded, standard-alphabet base64.  The length must be a
/// multiple of four; `=` may appear only as the final one or two characters,
/// and unused trailing bits must be zero.
pub open spec fn spec_b64_decode_padded(s: Seq<u8>) -> Option<Seq<u8>>
    decreases s.len(),
{
    if s.len() == 0 {
        Some(Seq::empty())
    } else if s.len() < 4 {
        None
    } else {
        let v0 = spec_b64_val(s[0]);
        let v1 = spec_b64_val(s[1]);
        if v0 == 255 || v1 == 255 {
            None
        } else if s[3] == 61 && s[2] == 61 {
            // one byte, final group only
            if s.len() == 4 && v1 & 15 == 0 {
                Some(seq![(v0 << 2) | (v1 >> 4)])
            } else {
                None
            }
        } else if s[3] == 61 {
            let v2 = spec_b64_val(s[2]);
            if s.len() == 4 && v2 != 255 && v2 & 3 == 0 {
                Some(seq![(v0 << 2) | (v1 >> 4), ((v1 & 15) << 4) | (v2 >> 2)])
            } else {
                None
            }
        } else {
            let v2 = spec_b64_val(s[2]);
            let v3 = spec_b64_val(s[3]);
            if v2 == 255 || v3 == 255 {
                None
            } else {
                match spec_b64_decode_padded(s.skip(4)) {
                    None => None,
                    Some(rest) => Some(
                        seq![
                            (v0 << 2) | (v1 >> 4),
                            ((v1 & 15) << 4) | (v2 >> 2),
                            ((v2 & 3) << 6) | v3,
                        ] + rest,
                    ),
                }
            }
        }
    }
}

/// Membership in the chosen alphabet.
pub open spec fn spec_is_b64_char(url: bool, c: u8) -> bool {
    exists|v: u8| v < 64 && c == spec_b64_char(url, v)
}

proof fn lemma_char_val_inverse(v: u8)
    requires
        v < 64,
    ensures
        spec_b64_val(spec_b64_char(false, v)) == v,
{
}

proof fn lemma_char_in_alphabet(url: bool, v: u8)
    requires
        v < 64,
    ensures
        spec_is_b64_char(url, spec_b64_char(url, v)),
{
}

/// Characters of the alphabets are neither `=` (61), newline (10), carriage
/// return (13), nor, for the standard alphabet, `-` (45).
pub proof fn lemma_b64_char_benign(url: bool, c: u8)
    requires
        spec_is_b64_char(url, c),
    ensures
        c != 45 || url,
        c != 61,
        c != 10,
        c != 13,
        c < 128,
{
    let v = choose|v: u8| v < 64 && c == spec_b64_char(url, v);
}

/// The four six-bit values of a full group are below 64.
proof fn lemma_group_sextets(b0: u8, b1: u8, b2: u8)
    ensures
        b0 >> 2 < 64,
        (b0 & 3) << 4 < 64,
        ((b0 & 3) << 4) | (b1 >> 4) < 64,
        (b1 & 15) << 2 < 64,
        ((b1 & 15) << 2) | (b2 >> 6) < 64,
        b2 & 63 < 64,
{
    assert(b0 >> 2 < 64 && (b0 & 3) << 4 < 64 && ((b0 & 3) << 4) | (b1 >> 4) < 64 && (b1 & 15) << 2
        < 64 && ((b1 & 15) << 2) | (b2 >> 6) < 64 && b2 & 63 < 64) by (bit_vector);
}

/// Every character of an encoding is in the chosen alphabet.
pub proof fn lemma_encode_nopad_chars(url: bool, s: Seq<u8>)
    ensures
        forall|i: int|
            0 <= i < spec_b64_encode_nopad(url, s).len() ==> spec_is_b64_char(
                url,
                #[trigger] spec_b64_encode_nopad(url, s)[i],
            ),
    decreases s.len(),
{
    if s.len() == 0 {
    } else if s.len() == 1 {
        let b0 = s[0];
        lemma_group_sextets(b0, 0, 0);
        lemma_char_in_alphabet(url, b0 >> 2);
        lemma_char_in_alphabet(url, (b0 & 3) << 4);
    } else if s.len() == 2 {
        let b0 = s[0];
        let b1 = s[1];
        lemma_group_sextets(b0, b1, 0);
        lemma_char_in_alphabet(url, b0 >> 2);
        lemma_char_in_alphabet(url, ((b0 & 3) << 4) | (b1 >> 4));
        lemma_char_in_alphabet(url, (b1 & 15) << 2);
    } else {
        let b0 = s[0];
        let b1 = s[1];
        let b2 = s[2];
        lemma_group_sextets(b0, b1, b2);
        lemma_encode_nopad_chars(url, s.skip(3));
        lemma_char_in_alphabet(url, b0 >> 2);
        lemma_char_in_alphabet(url, ((b0 & 3) << 4) | (b1 >> 4));
        lemma_char_in_alphabet(url, ((b1 & 15) << 2) | (b2 >> 6));
        lemma_char_in_alphabet(url, b2 & 63);
        assert forall|i: int| 0 <= i < spec_b64_encode_nopad(url, s).len() implies spec_is_b64_char(
            url,
            #[trigger] spec_b64_encode_nopad(url, s)[i],
        ) by {
            if i >= 4 {
                assert(spec_b64_encode_nopad(url, s)[i] == spec_b64_encode_nopad(url, s.skip(3))[i
                    - 4]);
            }
        }
    }
}

/// Decoding inverts padded encoding.
pub proof fn lemma_b64_round_trip(s: Seq<u8>)
    ensures
        spec_b64_decode_padded(spec_b64_encode_padded(s)) == Some(s),
    decreases s.len(),
{
    let e = spec_b64_encode_padded(s);
    if s.len() == 0 {
        assert(e =~= Seq::<u8>::empty());
        assert(spec_b64_decode_padded(e) =~~= Some(s));
    } else if s.len() == 1 {
        let b0 = s[0];
        lemma_group_sextets(b0, 0, 0);
        assert(e =~= seq![
            spec_b64_char(false, b0 >> 2),
            spec_b64_char(false, (b0 & 3) << 4),
            61u8,
            61u8,
        ]);
        lemma_char_val_inverse(b0 >> 2);
        lemma_char_val_inverse((b0 & 3) << 4);
        assert(((b0 & 3) << 4) & 15 == 0 && (((b0 >> 2) << 2) | (((b0 & 3) << 4) >> 4)) == b0)
            by (bit_vector);
        assert(spec_b64_decode_padded(e) =~~= Some(s));
    } else if s.len() == 2 {
        let b0 = s[0];
        let b1 = s[1];
        lemma_group_sextets(b0, b1, 0);
        assert(e =~= seq![
            spec_b64_char(false, b0 >> 2),
            spec_b64_char(false, ((b0 & 3) << 4) | (b1 >> 4)),
            spec_b64_char(false, (b1 & 15) << 2),
            61u8,
        ]);
        lemma_char_val_inverse(b0 >> 2);
        lemma_char_val_inverse(((b0 & 3) << 4) | (b1 >> 4));
        lemma_char_val_inverse((b1 & 15) << 2);
        assert(((b1 & 15) << 2) & 3 == 0 && (((b0 >> 2) << 2) | ((((b0 & 3) << 4) | (b1 >> 4))
            >> 4)) == b0 && ((((((b0 & 3) << 4) | (b1 >> 4)) & 15) << 4) | (((b1 & 15) << 2) >> 2))
            == b1) by (bit_vector);
        assert(spec_b64_decode_padded(e) =~~= Some(s));
    } else {
        let b0 = s[0];
        let b1 = s[1];
        let b2 = s[2];
        lemma_group_sextets(b0, b1, b2);
        let c0 = spec_b64_char(false, b0 >> 2);
        let c1 = spec_b64_char(false, ((b0 & 3) << 4) | (b1 >> 4));
        let c2 = spec_b64_char(false, ((b1 & 15) << 2) | (b2 >> 6));
        let c3 = spec_b64_char(false, b2 & 63);
        let tail = spec_b64_encode_padded(s.skip(3));
        assert(s.skip(3).len() == s.len() - 3);
        assert(e =~= seq![c0, c1, c2, c3] + tail);
        lemma_char_val_inverse(b0 >> 2);
        lemma_char_val_inverse(((b0 & 3) << 4) | (b1 >> 4));
        lemma_char_val_inverse(((b1 & 15) << 2) | (b2 >> 6));
        lemma_char_val_inverse(b2 & 63);
        lemma_b64_round_trip(s.skip(3));
        // characters 2 and 3 are in the alphabet, hence not `=`
        lemma_char_in_alphabet(false, ((b1 & 15) << 2) | (b2 >> 6));
        lemma_char_in_alphabet(false, b2 & 63);
        lemma_b64_char_benign(false, c2);
        lemma_b64_char_benign(false, c3);
        assert((((b0 >> 2) << 2) | ((((b0 & 3) << 4) | (b1 >> 4)) >> 4)) == b0 && ((((((b0 & 3)
            << 4) | (b1 >> 4)) & 15) << 4) | ((((b1 & 15) << 2) | (b2 >> 6)) >> 2)) == b1
            && ((((((b1 & 15) << 2) | (b2 >> 6)) & 3) << 6) | (b2 & 63)) == b2) by (bit_vector);
        assert(e.skip(4) =~= tail);
        assert(spec_b64_decode_padded(e).unwrap() =~= s);
    }
}

/// The encoding of `s` splits at any index that is a multiple of three.
proof fn lemma_encode_split(url: bool, s: Seq<u8>, i: int)
    requires
        0 <= i <= s.len(),
        i % 3 == 0,
    ensures
        spec_b64_encode_nopad(url, s) == spec_b64_encode_nopad(url, s.take(i))
            + spec_b64_encode_nopad(url, s.skip(i)),
    decreases i,
{
    if i == 0 {
        assert(s.take(0) =~= Seq::<u8>::empty());
        assert(s.skip(0) =~= s);
        assert(spec_b64_encode_nopad(url, s.take(0)) =~= Seq::<u8>::empty());
    } else {
        let g = seq![
            spec_b64_char(url, s[0] >> 2),
            spec_b64_char(url, ((s[0] & 3) << 4) | (s[1] >> 4)),
            spec_b64_char(url, ((s[1] & 15) << 2) | (s[2] >> 6)),
            spec_b64_char(url, s[2] & 63),
        ];
        lemma_encode_split(url, s.skip(3), i - 3);
        assert(s.skip(3).take(i - 3) =~= s.take(i).skip(3));
        assert(s.skip(3).skip(i - 3) =~= s.skip(i));
        let t = s.take(i);
        assert(t.len() == i >= 3);
        assert(t[0] == s[0] && t[1] == s[1] && t[2] == s[2]);
        assert(spec_b64_encode_nopad(url, t) == g + spec_b64_encode_nopad(url, t.skip(3)));
        assert(spec_b64_encode_nopad(url, s) =~= spec_b64_encode_nopad(url, s.take(i))
            + spec_b64_encode_nopad(url, s.skip(i)));
    }
}

/// Encoding a prefix three bytes longer appends one four-character group.
proof fn lemma_encode_chunk(url: bool, s: Seq<u8>, i: int)
    requires
        0 <= i,
        i % 3 == 0,
        i + 3 <= s.len(),
    ensures
        spec_b64_encode_nopad(url, s.take(i + 3)) == spec_b64_encode_nopad(url, s.take(i)) + seq![
            spec_b64_char(url, s[i] >> 2),
            spec_b64_char(url, ((s[i] & 3) << 4) | (s[i + 1] >> 4)),
            spec_b64_char(url, ((s[i + 1] & 15) << 2) | (s[i + 2] >> 6)),
            spec_b64_char(url, s[i + 2] & 63),
        ],
{
    let t = s.take(i + 3);
    lemma_encode_split(url, t, i);
    assert(t.take(i) =~= s.take(i));
    let u = t.skip(i);
    assert(u.len() == 3);
    assert(u[0] == s[i] && u[1] == s[i + 1] && u[2] == s[i + 2]);
    assert(u.skip(3) =~= Seq::<u8>::empty());
    assert(spec_b64_encode_nopad(url, u.skip(3)) =~= Seq::<u8>::empty());
    assert(spec_b64_encode_nopad(url, u) =~= seq![
        spec_b64_char(url, u[0] >> 2),
        spec_b64_char(url, ((u[0] & 3) << 4) | (u[1] >> 4)),
        spec_b64_char(url, ((u[1] & 15) << 2) | (u[2] >> 6)),
        spec_b64_char(url, u[2] & 63),
    ]);
}

/// Encoding the whole input appends the final short group to the encoding of
/// the aligned prefix.
proof fn lemma_encode_tail(url: bool, s: Seq<u8>, i: int)
    requires
        0 <= i <= s.len(),
        i % 3 == 0,
        s.len() - i == 1 || s.len() - i == 2,
    ensures
        s.len() - i == 1 ==> spec_b64_encode_nopad(url, s) == spec_b64_encode_nopad(url, s.take(i))
            + seq![spec_b64_char(url, s[i] >> 2), spec_b64_char(url, (s[i] & 3) << 4)],
        s.len() - i == 2 ==> spec_b64_encode_nopad(url, s) == spec_b64_encode_nopad(url, s.take(i))
            + seq![
            spec_b64_char(url, s[i] >> 2),
            spec_b64_char(url, ((s[i] & 3) << 4) | (s[i + 1] >> 4)),
            spec_b64_char(url, (s[i + 1] & 15) << 2),
        ],
{
    lemma_encode_split(url, s, i);
    let u = s.skip(i);
    assert(u[0] == s[i]);
    if s.len() - i == 2 {
        assert(u[1] == s[i + 1]);
    }
}

/// The character for a six-bit value.
pub fn b64_char(url: bool, v: u8) -> (r: u8)
    requires
        v < 64,
    ensures
        r == spec_b64_char(url, v),
{
    if v < 26 {
        65 + v
    } else if v < 52 {
        97 + (v - 26)
    } else if v < 62 {
        48 + (v - 52)
    } else if v == 62 {
        if url {
            45
        } else {
            43
        }
    } else {
        if url {
            95
        } else {
            47
        }
    }
}

/// The six-bit value of a standard-alphabet character; 255 stands for
/// "not in the alphabet".
pub fn b64_val(c: u8) -> (r: u8)
    ensures
        r == spec_b64_val(c),
{
    if 65 <= c && c < 91 {
        c - 65
    } else if 97 <= c && c < 123 {
        (c - 97) + 26
    } else if 48 <= c && c < 58 {
        (c - 48) + 52
    } else if c == 43 {
        62
    } else if c == 47 {
        63
    } else {
        255
    }
}

/// Base64 without padding, in the chosen alphabet.
pub fn b64_encode_nopad(url: bool, s: &[u8]) -> (r: Vec<u8>)
    ensures
        r@ == spec_b64_encode_nopad(url, s@),
{
    let n = s.len();
    let mut out: Vec<u8> = Vec::new();
    let mut i: usize = 0;
    while n - i >= 3
        invariant
            i <= n,
            n == s@.len(),
            i % 3 == 0,
            out@ == spec_b64_encode_nopad(url, s@.take(i as int)),
        decreases n - i,
    {
        let b0 = s[i];
        let b1 = s[i + 1];
        let b2 = s[i + 2];
        proof {
            lemma_group_sextets(b0, b1, b2);
        }
        out.push(b64_char(url, b0 >> 2));
        out.push(b64_char(url, ((b0 & 3) << 4) | (b1 >> 4)));
        out.push(b64_char(url, ((b1 & 15) << 2) | (b2 >> 6)));
        out.push(b64_char(url, b2 & 63));
        proof {
            lemma_encode_chunk(url, s@, i as int);
        }
        i = i + 3;
    }
    if n - i == 1 {
        let b0 = s[i];
        proof {
            lemma_group_sextets(b0, 0, 0);
        }
        out.push(b64_char(url, b0 >> 2));
        out.push(b64_char(url, (b0 & 3) << 4));
        proof {
            lemma_encode_tail(url, s@, i as int);
        }
    } else if n - i == 2 {
        let b0 = s[i];
        let b1 = s[i + 1];
        proof {
            lemma_group_sextets(b0, b1, 0);
        }
        out.push(b64_char(url, b0 >> 2));
        out.push(b64_char(url, ((b0 & 3) << 4) | (b1 >> 4)));
        out.push(b64_char(url, (b1 & 15) << 2));
        proof {
            lemma_encode_tail(url, s@, i as int);
        }
    } else {
        proof {
            assert(s@.take(n as int) =~= s@);
        }
    }
    out
}

/// Standard-alphabet base64 with padding, as PEM bodies carry it.
pub fn b64_encode_padded(s: &[u8]) -> (r: Vec<u8>)
    ensures
        r@ == spec_b64_encode_padded(s@),
{
    let mut out = b64_encode_nopad(false, s);
    if s.len() % 3 == 1 {
        out.push(61);
        out.push(61);
    } else if s.len() % 3 == 2 {
        out.push(61);
    }
    proof {
        assert(out@ =~= spec_b64_encode_padded(s@));
    }
    out
}

/// Decoding of padded, standard-alphabet base64; rejects what is not a
/// canonical encoding.
pub fn b64_decode_padded(s: &[u8]) -> (r: Option<Vec<u8>>)
    ensures
        match r {
            Some(v) => spec_b64_decode_padded(s@) == Some(v@),
            None => spec_b64_decode_padded(s@) is None,
        },
    decreases s@.len(),
{
    if s.len() == 0 {
        Some(Vec::new())
    } else if s.len() < 4 {
        None
    } else {
        let v0 = b64_val(s[0]);
        let v1 = b64_val(s[1]);
        if v0 == 255 || v1 == 255 {
            None
        } else if s[3] == 61 && s[2] == 61 {
            if s.len() == 4 && v1 & 15 == 0 {
                let mut out: Vec<u8> = Vec::new();
                out.push((v0 << 2) | (v1 >> 4));
                proof {
                    assert(spec_b64_decode_padded(s@).unwrap() =~= out@);
                }
                Some(out)
            } else {
                None
            }
        } else if s[3] == 61 {
            let v2 = b64_val(s[2]);
            if s.len() == 4 && v2 != 255 && v2 & 3 == 0 {
                let mut out: Vec<u8> = Vec::new();
                out.push((v0 << 2) | (v1 >> 4));
                out.push(((v1 & 15) << 4) | (v2 >> 2));
                proof {
                    assert(spec_b64_decode_padded(s@).unwrap() =~= out@);
                }
                Some(out)
            } else {
                None
            }
        } else {
            let v2 = b64_val(s[2]);
            let v3 = b64_val(s[3]);
            if v2 == 255 || v3 == 255 {
                None
            } else {
                let rest = vstd::slice::slice_subrange(s, 4, s.len());
                proof {
                    assert(s@.skip(4) =~= rest@);
                }
                match b64_decode_padded(rest) {
                    None => None,
                    Some(mut tail) => {
                        let mut out: Vec<u8> = Vec::new();
                        out.push((v0 << 2) | (v1 >> 4));
                        out.push(((v1 & 15) << 4) | (v2 >> 2));
                        out.push(((v2 & 3) << 6) | v3);
                        out.append(&mut tail);
                        proof {
                            assert(spec_b64_decode_padded(s@).unwrap() =~= out@);
                        }
                        Some(out)
                    },
                }
            }
        }
    }
}

} // verus!
