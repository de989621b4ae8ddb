//! Launching an installed engine: the `pulsar://open_project/…` URI that
//! hands the engine a project, and the engine binary names looked for.

use vstd::prelude::*;
use vstd::string::StringSliceAdditionalSpecFns;
use crate::text::{append_chars, chars_of, string_of};

verus! {

/// Bytes kept as they are by `percent_encode`: ASCII alphanumerics and
/// `-`, `_`, `.`, `~`.
pub open spec fn unreserved(b: u8) -> bool {
    (48 <= b <= 57) || (65 <= b <= 90) || (97 <= b <= 122) || b == 45 || b == 95 || b == 46
        || b == 126
}

/// Uppercase hexadecimal digit of `d < 16`.
pub open spec fn hex_upper(d: u8) -> char {
    if d < 10 {
        (48 + d) as char
    } else {
        (55 + d) as char
    }
}

/// The encoding of one byte: itself, or `%` and two uppercase hex digits.
pub open spec fn encode_byte(b: u8) -> Seq<char> {
    if unreserved(b) {
        seq![b as char]
    } else {
        seq!['%', hex_upper(b / 16), hex_upper(b % 16)]
    }
}

/// Percent-encoding of a byte string.
pub open spec fn spec_percent_encode(bytes: Seq<u8>) -> Seq<char>
    decreases bytes.len(),
{
    if bytes.len() == 0 {
        Seq::empty()
    } else {
        spec_percent_encode(bytes.drop_last()) + encode_byte(bytes.last())
    }
}

fn hex_upper_exec(d: u8) -> (c: char)
    requires
        d < 16,
    ensures
        c == hex_upper(d),
{
    if d < 10 {
        (48u8 + d) as char
    } else {
        (55u8 + d) as char
    }
}

/// Percent-encode a path for use inside a `pulsar://open_project/…` URI:
/// every UTF-8 byte other than ASCII alphanumerics and `-_.~` becomes
/// `%XX`.
pub fn percent_encode(input: &str) -> (r: String)
    ensures
        r@ == spec_percent_encode(input.spec_bytes()),
{
    let bytes = input.as_bytes();
    let mut out: Vec<char> = Vec::new();
    let mut i: usize = 0;
    while i < bytes.len()
        invariant
            i <= bytes@.len(),
            bytes@ == input.spec_bytes(),
            out@ == spec_percent_encode(bytes@.take(i as int)),
        decreases bytes@.len() - i,
    {
        let b = bytes[i];
        proof {
            assert(bytes@.take(i + 1).drop_last() =~= bytes@.take(i as int));
            assert(bytes@.take(i + 1).last() == b);
        }
        if (48 <= b && b <= 57) || (65 <= b && b <= 90) || (97 <= b && b <= 122) || b == 45 || b
            == 95 || b == 46 || b == 126 {
            out.push(b as char);
        } else {
            out.push('%');
            out.push(hex_upper_exec(b / 16));
            out.push(hex_upper_exec(b % 16));
        }
        i = i + 1;
        assert(out@ =~= spec_percent_encode(bytes@.take(i as int)));
    }
    assert(bytes@.take(bytes@.len() as int) =~= bytes@);
    string_of(out.as_slice())
}

/// Value of a hexadecimal digit (either case).
pub open spec fn hex_value(c: char) -> int {
    if '0' <= c <= '9' {
        c as int - 48
    } else if 'A' <= c <= 'F' {
        c as int - 55
    } else {
        c as int - 87
    }
}

/// Percent-decoding: `%XY` is the byte `XY`, any other character its code.
pub open spec fn spec_percent_decode(s: Seq<char>) -> Seq<u8>
    decreases s.len(),
{
    if s.len() == 0 {
        Seq::empty()
    } else if s[0] == '%' && s.len() >= 3 {
        seq![(hex_value(s[1]) * 16 + hex_value(s[2])) as u8] + spec_percent_decode(s.skip(3))
    } else {
        seq![s[0] as u8] + spec_percent_decode(s.drop_first())
    }
}

proof fn lemma_encode_front(bytes: Seq<u8>)
    requires
        bytes.len() > 0,
    ensures
        spec_percent_encode(bytes) == encode_byte(bytes[0]) + spec_percent_encode(
            bytes.drop_first(),
        ),
    decreases bytes.len(),
{
    if bytes.len() == 1 {
        assert(bytes.drop_last() =~= Seq::<u8>::empty());
        assert(bytes.drop_first() =~= Seq::<u8>::empty());
        assert(spec_percent_encode(bytes.drop_last()) =~= Seq::<char>::empty());
        assert(spec_percent_encode(bytes.drop_first()) =~= Seq::<char>::empty());
        assert(bytes.last() == bytes[0]);
        assert(spec_percent_encode(bytes) =~= encode_byte(bytes[0]));
    } else {
        lemma_encode_front(bytes.drop_last());
        assert(bytes.drop_last().drop_first() =~= bytes.drop_first().drop_last());
        assert(bytes.drop_first().last() == bytes.last());
        assert(bytes.drop_last()[0] == bytes[0]);
        assert(spec_percent_encode(bytes) =~= encode_byte(bytes[0]) + spec_percent_encode(
            bytes.drop_first(),
        ));
    }
}

proof fn lemma_decode_byte(b: u8, rest: Seq<char>)
    ensures
        spec_percent_decode(encode_byte(b) + rest) == seq![b] + spec_percent_decode(rest),
{
    let e = encode_byte(b);
    let s = e + rest;
    if unreserved(b) {
        assert(s[0] == b as char);
        assert(s.drop_first() =~= rest);
        assert((b as char) as u8 == b);
    } else {
        assert(s[0] == '%');
        assert(s[1] == hex_upper(b / 16));
        assert(s[2] == hex_upper(b % 16));
        assert(s.skip(3) =~= rest);
        assert(hex_value(hex_upper(b / 16)) == b / 16);
        assert(hex_value(hex_upper(b % 16)) == b % 16);
        assert((b / 16) * 16 + b % 16 == b);
    }
}

/// Decoding the URI form of a path gives back the path's bytes: the
/// encoding loses nothing.
pub proof fn law_percent_decode_inverts_encode(bytes: Seq<u8>)
    ensures
        spec_percent_decode(spec_percent_encode(bytes)) == bytes,
    decreases bytes.len(),
{
    if bytes.len() > 0 {
        lemma_encode_front(bytes);
        law_percent_decode_inverts_encode(bytes.drop_first());
        lemma_decode_byte(bytes[0], spec_percent_encode(bytes.drop_first()));
        assert(seq![bytes[0]] + bytes.drop_first() =~= bytes);
    } else {
        assert(spec_percent_encode(bytes) =~= Seq::<char>::empty());
        assert(spec_percent_decode(Seq::<char>::empty()) =~= Seq::<u8>::empty());
    }
}

/// The engine is handed `project` as `pulsar://open_project/<encoded>`.
pub open spec fn spec_open_project_uri(project: Seq<char>) -> Seq<char> {
    "pulsar://open_project/"@ + spec_percent_encode(vstd::utf8::encode_utf8(project))
}

/// The URI argument that makes the engine open `project` at startup.
pub fn open_project_uri(project: &str) -> (r: String)
    ensures
        r@ == spec_open_project_uri(project@),
{
    let mut v = chars_of("pulsar://open_project/");
    let e = percent_encode(project);
    let w = chars_of(e.as_str());
    append_chars(&mut v, &w);
    string_of(v.as_slice())
}

} // verus!
