//! MessagePack text: the encoding of a string, of an absent one, and of a small map's size.
use vstd::prelude::*;
use vstd::string::StrSliceExecFns;
use vstd::utf8::encode_utf8;

verus! {

/// The byte that stands for no value.
pub const NIL: u8 = 0xc0;

/// The longest string that MessagePack can hold, in bytes.
pub const MAX_STR: u64 = 0xffff_ffff;

/// The bytes in front of a string of `n` bytes.
pub open spec fn str_header(n: nat) -> Seq<u8> {
    if n < 32 {
        seq![(0xa0 + n) as u8]
    } else if n < 256 {
        seq![0xd9u8, n as u8]
    } else if n < 65536 {
        seq![0xdau8, (n / 256) as u8, (n % 256) as u8]
    } else {
        seq![
            0xdbu8,
            (n / 16777216) as u8,
            (n / 65536 % 256) as u8,
            (n / 256 % 256) as u8,
            (n % 256) as u8,
        ]
    }
}

/// Whether a text is short enough to be encoded.
pub open spec fn fits(s: Seq<char>) -> bool {
    encode_utf8(s).len() <= MAX_STR
}

/// A string: its header and its UTF-8 bytes.
pub open spec fn pack_str(s: Seq<char>) -> Seq<u8> {
    str_header(encode_utf8(s).len()) + encode_utf8(s)
}

/// A string, or `NIL` where there is none.
pub open spec fn pack_optional_str(s: Option<Seq<char>>) -> Seq<u8> {
    match s {
        Some(s) => pack_str(s),
        None => seq![NIL],
    }
}

/// The UTF-8 form of a text has between one and four bytes for each character.
pub proof fn lemma_utf8_len(s: Seq<char>)
    ensures
        s.len() <= encode_utf8(s).len() <= 4 * s.len(),
    decreases s.len(),
{
    if s.len() > 0 {
        lemma_utf8_len(s.drop_first());
    }
}

/// Appends a string where it fits; where it does not, leaves `out` as it is.
pub fn push_str(out: &mut Vec<u8>, s: &str) -> (r: bool)
    ensures
        r == fits(s@),
        final(out)@ == (if r {
            old(out)@ + pack_str(s@)
        } else {
            old(out)@
        }),
{
    let bytes = s.as_bytes();
    let n: u64 = bytes.len() as u64;
    if n > MAX_STR {
        return false;
    }
    if n < 32 {
        out.push((0xa0 + n) as u8);
    } else if n < 256 {
        out.push(0xd9);
        out.push(n as u8);
    } else if n < 65536 {
        out.push(0xda);
        out.push((n / 256) as u8);
        out.push((n % 256) as u8);
    } else {
        out.push(0xdb);
        out.push((n / 16777216) as u8);
        out.push((n / 65536 % 256) as u8);
        out.push((n / 256 % 256) as u8);
        out.push((n % 256) as u8);
    }
    assert(out@ =~= old(out)@ + str_header(n as nat));
    out.extend_from_slice(bytes);
    assert(out@ =~= old(out)@ + pack_str(s@));
    true
}

/// The view of an optional text slice.
pub open spec fn slice_view(s: Option<&str>) -> Option<Seq<char>> {
    match s {
        Some(s) => Some(s@),
        None => None,
    }
}

/// Whether an optional text is short enough to be encoded.
pub open spec fn optional_fits(s: Option<Seq<char>>) -> bool {
    s matches Some(s) ==> fits(s)
}

/// Appends an optional string where it fits; where it does not, leaves `out` as it is.
pub fn push_optional_str(out: &mut Vec<u8>, s: Option<&str>) -> (r: bool)
    ensures
        r == optional_fits(slice_view(s)),
        final(out)@ == (if r {
            old(out)@ + pack_optional_str(slice_view(s))
        } else {
            old(out)@
        }),
{
    match s {
        Some(s) => push_str(out, s),
        None => {
            out.push(NIL);
            assert(out@ =~= old(out)@ + seq![NIL]);
            true
        },
    }
}

proof fn lemma_header_tells_length(m: nat, n: nat, x: Seq<u8>, y: Seq<u8>)
    requires
        m <= MAX_STR,
        n <= MAX_STR,
        str_header(m) + x == str_header(n) + y,
    ensures
        m == n,
{
    let a = str_header(m) + x;
    let b = str_header(n) + y;
    assert(a[0] == str_header(m)[0] && b[0] == str_header(n)[0]);
    assert(str_header(m).len() == str_header(n).len());
    assert forall|i: int| 0 <= i < str_header(m).len() implies #[trigger] str_header(m)[i]
        == str_header(n)[i] by {
        assert(a[i] == str_header(m)[i]);
        assert(b[i] == str_header(n)[i]);
    }
    if m >= 65536 {
        assert(str_header(m)[1] == str_header(n)[1]);
        assert(str_header(m)[2] == str_header(n)[2]);
        assert(str_header(m)[3] == str_header(n)[3]);
        assert(str_header(m)[4] == str_header(n)[4]);
    } else if m >= 256 {
        assert(str_header(m)[1] == str_header(n)[1]);
        assert(str_header(m)[2] == str_header(n)[2]);
    } else if m >= 32 {
        assert(str_header(m)[1] == str_header(n)[1]);
    }
}

/// An encoded string tells where it ends: two byte streams that start with encoded strings are
/// equal only where the strings are equal and what follows is equal.
pub proof fn law_strings_are_self_delimiting(a: Seq<char>, b: Seq<char>, x: Seq<u8>, y: Seq<u8>)
    requires
        fits(a),
        fits(b),
        pack_str(a) + x == pack_str(b) + y,
    ensures
        a == b,
        x == y,
{
    let m = encode_utf8(a).len();
    let n = encode_utf8(b).len();
    let h = str_header(m);
    assert(pack_str(a) + x =~= str_header(m) + (encode_utf8(a) + x));
    assert(pack_str(b) + y =~= str_header(n) + (encode_utf8(b) + y));
    lemma_header_tells_length(m, n, encode_utf8(a) + x, encode_utf8(b) + y);
    let whole = pack_str(a) + x;
    assert(encode_utf8(a) =~= whole.subrange(h.len() as int, (h.len() + m) as int));
    assert(encode_utf8(b) =~= (pack_str(b) + y).subrange(h.len() as int, (h.len() + m) as int));
    assert(x =~= whole.subrange((h.len() + m) as int, whole.len() as int));
    assert(y =~= (pack_str(b) + y).subrange((h.len() + m) as int, whole.len() as int));
    vstd::utf8::encode_utf8_decode_utf8(a);
    vstd::utf8::encode_utf8_decode_utf8(b);
}

/// An optional string is never taken for another one, present or absent.
pub proof fn law_optional_strings_are_self_delimiting(
    a: Option<Seq<char>>,
    b: Option<Seq<char>>,
    x: Seq<u8>,
    y: Seq<u8>,
)
    requires
        optional_fits(a),
        optional_fits(b),
        pack_optional_str(a) + x == pack_optional_str(b) + y,
    ensures
        a == b,
        x == y,
{
    let left = pack_optional_str(a) + x;
    let right = pack_optional_str(b) + y;
    assert(left[0] == pack_optional_str(a)[0]);
    assert(right[0] == pack_optional_str(b)[0]);
    match (a, b) {
        (Some(s), Some(t)) => law_strings_are_self_delimiting(s, t, x, y),
        (None, None) => {
            assert(x =~= left.subrange(1, left.len() as int));
            assert(y =~= right.subrange(1, right.len() as int));
        },
        _ => {},
    }
}

/// How long the string is that bytes begin with, and how many bytes come before it, as the first of
/// them tell: a short one gives its length in the first byte, a longer one in the one, two or four
/// bytes that follow, the highest first.
pub open spec fn announced(bytes: Seq<u8>) -> Option<(int, int)> {
    let first = bytes[0];
    if 0xa0 <= first <= 0xbf {
        Some((1, first - 0xa0))
    } else if first == 0xd9 {
        Some((2, bytes[1] as int))
    } else if first == 0xda {
        Some((3, bytes[1] * 0x100 + bytes[2]))
    } else if first == 0xdb {
        Some((5, bytes[1] * 0x100_0000 + bytes[2] * 0x1_0000 + bytes[3] * 0x100 + bytes[4]))
    } else {
        None
    }
}

/// A text is encoded so that it can be read back: its bytes announce its length and are its UTF-8 form,
/// and what follows it is where it was. An absent text is the one byte for no value.
pub proof fn law_texts_read_back(s: Seq<char>, rest: Seq<u8>)
    requires
        encode_utf8(s).len() <= 0xffff_ffff,
    ensures
        ({
            let bytes = pack_str(s) + rest;
            let n = encode_utf8(s).len() as int;
            announced(bytes) matches Some((at, len)) && len == n && bytes.subrange(at, at + len)
                == encode_utf8(s) && bytes.skip(at + len) == rest
        }),
        pack_optional_str(Some(s)) == pack_str(s),
        pack_optional_str(None) == seq![0xc0u8],
{
    let bytes = pack_str(s) + rest;
    let utf8 = encode_utf8(s);
    let n = utf8.len();
    let header = str_header(n);
    assert(forall|i: int| 0 <= i < header.len() ==> bytes[i] == header[i]);
    if n >= 65536 {
        assert(bytes[1] == n / 16777216);
        assert(bytes[2] == n / 65536 % 256);
        assert(bytes[3] == n / 256 % 256);
        assert(bytes[4] == n % 256);
        assert(n == (n / 16777216) * 16777216 + (n / 65536 % 256) * 65536 + (n / 256 % 256) * 256 + n
            % 256);
    } else if n >= 256 {
        assert(bytes[1] == n / 256);
        assert(bytes[2] == n % 256);
    }
    let at = header.len() as int;
    assert(announced(bytes) == Some((at, n as int)));
    assert(bytes.subrange(at, at + n) =~= utf8);
    assert(bytes.skip(at + n) =~= rest);
}

/// A text can be encoded where its UTF-8 form is shorter than four gibibytes, and only there.
pub proof fn law_texts_fit_up_to_four_gibibytes(s: Seq<char>)
    ensures
        fits(s) <==> encode_utf8(s).len() < 0x1_0000_0000,
        s.len() <= 0x3fff_ffff ==> fits(s),
        optional_fits(Some(s)) <==> fits(s),
        optional_fits(None),
{
    lemma_utf8_len(s);
}

/// An optional slice of text is viewed as it is, whole, or as none.
pub proof fn law_optional_slices_are_viewed_whole(s: Option<&str>)
    ensures
        s matches Some(text) ==> slice_view(s) == Some(text@),
        s is None ==> slice_view(s) is None,
{
}

} // verus!
