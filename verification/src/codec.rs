//! Base64, as Kubernetes writes the values of a secret.
use base64::Engine;
use vstd::prelude::*;

verus! {

/// Why the `base64` crate refuses a text.
#[verifier::external_type_specification]
#[verifier::external_body]
pub struct ExDecodeError(base64::DecodeError);

/// The character of the standard alphabet that stands for six bits.
pub open spec fn sextet(n: int) -> char {
    if n < 26 {
        (0x41 + n) as char
    } else if n < 52 {
        (0x61 + n - 26) as char
    } else if n < 62 {
        (0x30 + n - 52) as char
    } else if n == 62 {
        '+'
    } else {
        '/'
    }
}

/// The padded base64 text of some bytes: four characters for each three bytes.
pub open spec fn base64_text(bytes: Seq<u8>) -> Seq<char>
    decreases bytes.len(),
{
    if bytes.len() == 0 {
        seq![]
    } else if bytes.len() == 1 {
        let a = bytes[0] as int;
        seq![sextet(a / 4), sextet(a % 4 * 16), '=', '=']
    } else if bytes.len() == 2 {
        let (a, b) = (bytes[0] as int, bytes[1] as int);
        seq![sextet(a / 4), sextet(a % 4 * 16 + b / 16), sextet(b % 16 * 4), '=']
    } else {
        let (a, b, c) = (bytes[0] as int, bytes[1] as int, bytes[2] as int);
        seq![
            sextet(a / 4),
            sextet(a % 4 * 16 + b / 16),
            sextet(b % 16 * 4 + c / 64),
            sextet(c % 64),
        ] + base64_text(bytes.skip(3))
    }
}

/// The bytes that a base64 text stands for, where it stands for some.
pub open spec fn base64_bytes(text: Seq<char>) -> Option<Seq<u8>> {
    if exists|bytes: Seq<u8>| #[trigger] base64_text(bytes) == text {
        Some(choose|bytes: Seq<u8>| #[trigger] base64_text(bytes) == text)
    } else {
        None
    }
}

/// `Engine::decode` of `base64::engine::general_purpose::STANDARD`: it takes the
/// base64 text of some bytes, with its padding and with no bit set that stands
/// for nothing, and no other text, and gives those bytes.
#[verifier::external_body]
fn standard_decode(text: &str) -> (r: Result<Vec<u8>, base64::DecodeError>)
    ensures
        match r {
            Ok(bytes) => base64_text(bytes@) == text@,
            Err(_) => forall|bytes: Seq<u8>| #[trigger] base64_text(bytes) != text@,
        },
{
    base64::engine::general_purpose::STANDARD.decode(text)
}

/// Reads a base64 text.
pub fn decode_base64(text: &str) -> (r: Result<Vec<u8>, base64::DecodeError>)
    ensures
        match r {
            Ok(bytes) => base64_bytes(text@) == Some(bytes@),
            Err(_) => base64_bytes(text@) is None,
        },
        match r {
            Ok(bytes) => base64_text(bytes@) == text@,
            Err(_) => forall|bytes: Seq<u8>| #[trigger] base64_text(bytes) != text@,
        },
{
    let r = standard_decode(text);
    proof {
        if r is Ok {
            law_base64_gives_the_bytes_back(r->Ok_0@);
        }
    }
    r
}

/// A character of the standard alphabet, or the padding.
pub open spec fn base64_char(c: char) -> bool {
    ||| 'A' <= c <= 'Z'
    ||| 'a' <= c <= 'z'
    ||| '0' <= c <= '9'
    ||| c == '+'
    ||| c == '/'
    ||| c == '='
}

proof fn lemma_sextet(n: int)
    requires
        0 <= n < 64,
    ensures
        base64_char(sextet(n)),
        sextet(n) != '=',
{
}

proof fn lemma_sextet_injective(n: int, m: int)
    requires
        0 <= n < 64,
        0 <= m < 64,
        sextet(n) == sextet(m),
    ensures
        n == m,
{
}

/// A base64 text holds characters of the alphabet and padding only, four for
/// each three bytes that were begun.
pub proof fn lemma_base64_chars(bytes: Seq<u8>)
    ensures
        base64_text(bytes).len() == (bytes.len() + 2) / 3 * 4,
        forall|i: int| 0 <= i < base64_text(bytes).len() ==> base64_char(#[trigger] base64_text(bytes)[i]),
    decreases bytes.len(),
{
    let text = base64_text(bytes);
    if bytes.len() >= 3 {
        let rest = base64_text(bytes.skip(3));
        lemma_base64_chars(bytes.skip(3));
        let (a, b, c) = (bytes[0] as int, bytes[1] as int, bytes[2] as int);
        lemma_sextet(a / 4);
        lemma_sextet(a % 4 * 16 + b / 16);
        lemma_sextet(b % 16 * 4 + c / 64);
        lemma_sextet(c % 64);
        assert forall|i: int| 0 <= i < text.len() implies base64_char(#[trigger] text[i]) by {
            if i >= 4 {
                assert(text[i] == rest[i - 4]);
            }
        }
    } else if bytes.len() == 2 {
        let (a, b) = (bytes[0] as int, bytes[1] as int);
        lemma_sextet(a / 4);
        lemma_sextet(a % 4 * 16 + b / 16);
        lemma_sextet(b % 16 * 4);
    } else if bytes.len() == 1 {
        let a = bytes[0] as int;
        lemma_sextet(a / 4);
        lemma_sextet(a % 4 * 16);
    }
}

/// The first four characters of a base64 text.
proof fn lemma_base64_head(bytes: Seq<u8>)
    requires
        bytes.len() > 0,
    ensures
        base64_text(bytes).len() >= 4,
        ({
            let t = base64_text(bytes);
            let a = bytes[0] as int;
            let b = if bytes.len() > 1 {
                bytes[1] as int
            } else {
                0
            };
            let c = if bytes.len() > 2 {
                bytes[2] as int
            } else {
                0
            };
            &&& t[0] == sextet(a / 4)
            &&& t[1] == sextet(a % 4 * 16 + b / 16)
            &&& t[2] == if bytes.len() > 1 {
                sextet(b % 16 * 4 + c / 64)
            } else {
                '='
            }
            &&& t[3] == if bytes.len() > 2 {
                sextet(c % 64)
            } else {
                '='
            }
        }),
{
}

/// No two byte strings have the same base64 text.
pub proof fn law_base64_is_injective(x: Seq<u8>, y: Seq<u8>)
    requires
        base64_text(x) == base64_text(y),
    ensures
        x == y,
    decreases x.len(),
{
    let t = base64_text(x);
    let u = base64_text(y);
    lemma_base64_chars(x);
    lemma_base64_chars(y);
    if x.len() > 0 && y.len() > 0 {
        let (a, b) = (x[0] as int, y[0] as int);
        lemma_base64_head(x);
        lemma_base64_head(y);
        assert(t[0] == u[0] && t[1] == u[1] && t[2] == u[2] && t[3] == u[3]);
        lemma_sextet_injective(a / 4, b / 4);
        if x.len() >= 2 {
            lemma_sextet(x[1] as int % 16 * 4 + if x.len() >= 3 {
                x[2] as int / 64
            } else {
                0
            });
        }
        if y.len() >= 2 {
            lemma_sextet(y[1] as int % 16 * 4 + if y.len() >= 3 {
                y[2] as int / 64
            } else {
                0
            });
        }
        if x.len() >= 3 {
            lemma_sextet(x[2] as int % 64);
        }
        if y.len() >= 3 {
            lemma_sextet(y[2] as int % 64);
        }
        if x.len() == 1 {
            assert(y.len() == 1);
            lemma_sextet_injective(a % 4 * 16, b % 4 * 16);
            assert(x == y);
        } else if x.len() == 2 {
            assert(y.len() == 2);
            let (a1, b1) = (x[1] as int, y[1] as int);
            lemma_sextet_injective(a % 4 * 16 + a1 / 16, b % 4 * 16 + b1 / 16);
            lemma_sextet_injective(a1 % 16 * 4, b1 % 16 * 4);
            assert(x == y);
        } else {
            assert(y.len() >= 3);
            let (a1, b1) = (x[1] as int, y[1] as int);
            let (a2, b2) = (x[2] as int, y[2] as int);
            lemma_sextet_injective(a % 4 * 16 + a1 / 16, b % 4 * 16 + b1 / 16);
            lemma_sextet_injective(a1 % 16 * 4 + a2 / 64, b1 % 16 * 4 + b2 / 64);
            lemma_sextet_injective(a2 % 64, b2 % 64);
            assert(t.skip(4) == base64_text(x.skip(3)));
            assert(u.skip(4) == base64_text(y.skip(3)));
            law_base64_is_injective(x.skip(3), y.skip(3));
            assert(x == x.take(3) + x.skip(3));
            assert(y == y.take(3) + y.skip(3));
            assert(x.take(3) == y.take(3));
        }
    } else {
        assert(x.len() == 0 && y.len() == 0);
        assert(x == y);
    }
}

/// Reading the base64 text of some bytes gives the bytes back.
pub proof fn law_base64_gives_the_bytes_back(bytes: Seq<u8>)
    ensures
        base64_bytes(base64_text(bytes)) == Some(bytes),
{
    let text = base64_text(bytes);
    let other = choose|other: Seq<u8>| #[trigger] base64_text(other) == text;
    law_base64_is_injective(other, bytes);
}

/// A text stands for bytes exactly where it is their base64 text.
pub proof fn law_base64_texts(text: Seq<char>, bytes: Seq<u8>)
    ensures
        base64_bytes(text) == Some(bytes) <==> base64_text(bytes) == text,
{
    law_base64_gives_the_bytes_back(bytes);
}

/// Four characters carry the bits of three bytes, the first byte in front; bytes that
/// are missing at the end count as zero.
pub proof fn law_base64_carries_the_bits(bytes: Seq<u8>) -> (v: (int, int, int, int))
    requires
        bytes.len() > 0,
    ensures
        0 <= v.0 < 64 && 0 <= v.1 < 64 && 0 <= v.2 < 64 && 0 <= v.3 < 64,
        262144 * v.0 + 4096 * v.1 + 64 * v.2 + v.3 == 65536 * bytes[0] + 256 * (if bytes.len() > 1 {
            bytes[1] as int
        } else {
            0
        }) + (if bytes.len() > 2 {
            bytes[2] as int
        } else {
            0
        }),
        base64_text(bytes).len() >= 4,
        base64_text(bytes)[0] == sextet(v.0),
        base64_text(bytes)[1] == sextet(v.1),
        base64_text(bytes)[2] == if bytes.len() > 1 {
            sextet(v.2)
        } else {
            '='
        },
        base64_text(bytes)[3] == if bytes.len() > 2 {
            sextet(v.3)
        } else {
            '='
        },
        bytes.len() >= 3 ==> base64_text(bytes).skip(4) == base64_text(bytes.skip(3)),
        bytes.len() < 3 ==> base64_text(bytes).len() == 4,
{
    lemma_base64_head(bytes);
    let a = bytes[0] as int;
    let b = if bytes.len() > 1 {
        bytes[1] as int
    } else {
        0
    };
    let c = if bytes.len() > 2 {
        bytes[2] as int
    } else {
        0
    };
    if bytes.len() >= 3 {
        assert(base64_text(bytes).skip(4) =~= base64_text(bytes.skip(3)));
    }
    (a / 4, a % 4 * 16 + b / 16, b % 16 * 4 + c / 64, c % 64)
}

} // verus!
