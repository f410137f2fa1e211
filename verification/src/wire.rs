//! The exact bytes of the HTTP and MIME framing that clients receive: the
//! one-off response preamble, the per-frame part header with its decimal
//! `Content-Length`, and the CRLF that closes each part.

use vstd::prelude::*;

verus! {

/// The ASCII decimal digits of `n`, most significant first, no sign, no
/// leading zeros (`0` itself is the single digit `0`).
pub open spec fn decimal(n: nat) -> Seq<u8>
    decreases n,
{
    if n < 10 {
        seq![(0x30 + n) as u8]
    } else {
        decimal(n / 10).push((0x30 + n % 10) as u8)
    }
}

/// Render `n` in ASCII decimal.
pub fn decimal_bytes(n: usize) -> (r: Vec<u8>)
    ensures
        r@ == decimal(n as nat),
    decreases n,
{
    if n < 10 {
        let mut v: Vec<u8> = Vec::new();
        v.push(0x30 + (n as u8));
        proof {
            assert(v@ =~= decimal(n as nat));
        }
        v
    } else {
        proof {
            assert(n / 10 < n) by (nonlinear_arith)
                requires n >= 10;
        }
        let mut v = decimal_bytes(n / 10);
        v.push(0x30 + ((n % 10) as u8));
        proof {
            assert(n as nat / 10 == (n / 10) as nat);
            assert(v@ =~= decimal(n as nat));
        }
        v
    }
}

/// `\r\n`, the terminator written after each frame body.
pub open spec fn crlf() -> Seq<u8> {
    seq![13u8, 10]
}

/// The fixed text of the part header up to the `Content-Length` digits:
/// `--frame\r\nContent-Type: image/jpeg\r\nContent-Length: `.
pub open spec fn part_header_prefix() -> Seq<u8> {
    seq![45u8, 45, 102, 114, 97, 109, 101, 13, 10, 67, 111, 110, 116, 101, 110, 116, 45, 84,
        121, 112, 101, 58, 32, 105, 109, 97, 103, 101, 47, 106, 112, 101, 103, 13, 10, 67,
        111, 110, 116, 101, 110, 116, 45, 76, 101, 110, 103, 116, 104, 58, 32]
}

/// The MIME part header announcing one frame of `length` bytes, ending in
/// the blank line that separates it from the body.
pub open spec fn spec_part_header(length: nat) -> Seq<u8> {
    part_header_prefix() + decimal(length) + crlf() + crlf()
}

/// Everything a client receives for one frame of the stream.
pub open spec fn spec_part(frame: Seq<u8>) -> Seq<u8> {
    spec_part_header(frame.len()) + frame + crlf()
}

/// The one-off HTTP response head that opens the multipart stream:
/// `HTTP/1.1 200 OK\r\nContent-Type: multipart/x-mixed-replace;
/// boundary=frame\r\n\r\n`.
pub open spec fn spec_preamble() -> Seq<u8> {
    seq![72u8, 84, 84, 80, 47, 49, 46, 49, 32, 50, 48, 48, 32, 79, 75, 13, 10, 67, 111, 110,
        116, 101, 110, 116, 45, 84, 121, 112, 101, 58, 32, 109, 117, 108, 116, 105, 112, 97,
        114, 116, 47, 120, 45, 109, 105, 120, 101, 100, 45, 114, 101, 112, 108, 97, 99, 101,
        59, 32, 98, 111, 117, 110, 100, 97, 114, 121, 61, 102, 114, 97, 109, 101, 13, 10, 13,
        10]
}

/// Build the MIME part header for a frame of `length` bytes.
pub fn format_mime_part_header(length: usize) -> (r: Vec<u8>)
    ensures
        r@ == spec_part_header(length as nat),
{
    let mut v: Vec<u8> = Vec::new();
    v.push(45);
    v.push(45);
    v.push(102);
    v.push(114);
    v.push(97);
    v.push(109);
    v.push(101);
    v.push(13);
    v.push(10);
    v.push(67);
    v.push(111);
    v.push(110);
    v.push(116);
    v.push(101);
    v.push(110);
    v.push(116);
    v.push(45);
    v.push(84);
    v.push(121);
    v.push(112);
    v.push(101);
    v.push(58);
    v.push(32);
    v.push(105);
    v.push(109);
    v.push(97);
    v.push(103);
    v.push(101);
    v.push(47);
    v.push(106);
    v.push(112);
    v.push(101);
    v.push(103);
    v.push(13);
    v.push(10);
    v.push(67);
    v.push(111);
    v.push(110);
    v.push(116);
    v.push(101);
    v.push(110);
    v.push(116);
    v.push(45);
    v.push(76);
    v.push(101);
    v.push(110);
    v.push(103);
    v.push(116);
    v.push(104);
    v.push(58);
    v.push(32);
    proof {
        assert(v@ =~= part_header_prefix());
    }
    let digits = decimal_bytes(length);
    v.extend_from_slice(digits.as_slice());
    v.push(13);
    v.push(10);
    v.push(13);
    v.push(10);
    proof {
        assert(v@ =~= spec_part_header(length as nat));
    }
    v
}

/// Build the HTTP preamble written once per connection.
pub fn http_preamble() -> (r: Vec<u8>)
    ensures
        r@ == spec_preamble(),
{
    let mut v: Vec<u8> = Vec::new();
    v.push(72);
    v.push(84);
    v.push(84);
    v.push(80);
    v.push(47);
    v.push(49);
    v.push(46);
    v.push(49);
    v.push(32);
    v.push(50);
    v.push(48);
    v.push(48);
    v.push(32);
    v.push(79);
    v.push(75);
    v.push(13);
    v.push(10);
    v.push(67);
    v.push(111);
    v.push(110);
    v.push(116);
    v.push(101);
    v.push(110);
    v.push(116);
    v.push(45);
    v.push(84);
    v.push(121);
    v.push(112);
    v.push(101);
    v.push(58);
    v.push(32);
    v.push(109);
    v.push(117);
    v.push(108);
    v.push(116);
    v.push(105);
    v.push(112);
    v.push(97);
    v.push(114);
    v.push(116);
    v.push(47);
    v.push(120);
    v.push(45);
    v.push(109);
    v.push(105);
    v.push(120);
    v.push(101);
    v.push(100);
    v.push(45);
    v.push(114);
    v.push(101);
    v.push(112);
    v.push(108);
    v.push(97);
    v.push(99);
    v.push(101);
    v.push(59);
    v.push(32);
    v.push(98);
    v.push(111);
    v.push(117);
    v.push(110);
    v.push(100);
    v.push(97);
    v.push(114);
    v.push(121);
    v.push(61);
    v.push(102);
    v.push(114);
    v.push(97);
    v.push(109);
    v.push(101);
    v.push(13);
    v.push(10);
    v.push(13);
    v.push(10);
    proof {
        assert(v@ =~= spec_preamble());
    }
    v
}

/// The bytes written after each frame body.
pub fn frame_terminator() -> (r: Vec<u8>)
    ensures
        r@ == crlf(),
{
    let mut v: Vec<u8> = Vec::new();
    v.push(13);
    v.push(10);
    proof {
        assert(v@ =~= crlf());
    }
    v
}

/// Assemble one whole part: header, frame body, terminator. The per-client
/// writer emits the same three pieces without gathering them first; this
/// gathered form is the reference shape of what it sends.
pub fn compose_part(frame: &[u8]) -> (r: Vec<u8>)
    ensures
        r@ == spec_part(frame@),
{
    let mut v = format_mime_part_header(frame.len());
    v.extend_from_slice(frame);
    v.push(13);
    v.push(10);
    proof {
        assert(v@ =~= spec_part(frame@));
    }
    v
}

/// Every rendering has at least one digit.
proof fn lemma_decimal_nonempty(n: nat)
    ensures
        decimal(n).len() >= 1,
    decreases n,
{
    if n >= 10 {
        lemma_decimal_nonempty(n / 10);
    }
}

/// Distinct numbers render to distinct digit strings.
pub proof fn lemma_decimal_injective(a: nat, b: nat)
    requires
        decimal(a) == decimal(b),
    ensures
        a == b,
    decreases a,
{
    if a < 10 && b < 10 {
        assert(decimal(a)[0] == (0x30 + a) as u8);
        assert(decimal(b)[0] == (0x30 + b) as u8);
        assert(((0x30 + a) as u8) as nat == 0x30 + a);
        assert(((0x30 + b) as u8) as nat == 0x30 + b);
        assert(decimal(a)[0] == decimal(b)[0]);
    } else if a < 10 {
        lemma_decimal_nonempty(b / 10);
        assert(decimal(b).len() >= 2);
    } else if b < 10 {
        lemma_decimal_nonempty(a / 10);
        assert(decimal(a).len() >= 2);
    } else {
        assert(decimal(a) == decimal(a / 10).push((0x30 + a % 10) as u8));
        assert(decimal(b) == decimal(b / 10).push((0x30 + b % 10) as u8));
        assert(decimal(a).drop_last() =~= decimal(a / 10));
        assert(decimal(b).drop_last() =~= decimal(b / 10));
        lemma_decimal_injective(a / 10, b / 10);
        assert(decimal(a).last() == (0x30 + a % 10) as u8);
        assert(decimal(b).last() == (0x30 + b % 10) as u8);
        assert(a % 10 < 10 && b % 10 < 10);
        assert(((0x30 + a % 10) as u8) as nat == 0x30 + a % 10);
        assert(((0x30 + b % 10) as u8) as nat == 0x30 + b % 10);
        assert(a % 10 == b % 10);
        assert(a == 10 * (a / 10) + a % 10) by (nonlinear_arith);
        assert(b == 10 * (b / 10) + b % 10) by (nonlinear_arith);
    }
}

/// The part header pins the announced length down: a client that parses the
/// `Content-Length` digits of a header learns exactly the length the sender
/// computed, since no two lengths share a header.
pub proof fn lemma_part_header_identifies_length(a: nat, b: nat)
    requires
        spec_part_header(a) == spec_part_header(b),
    ensures
        a == b,
{
    let pre = part_header_prefix().len() as int;
    let ha = spec_part_header(a);
    let hb = spec_part_header(b);
    assert(ha.len() == pre + decimal(a).len() + 4);
    assert(hb.len() == pre + decimal(b).len() + 4);
    assert(decimal(a) =~= ha.subrange(pre, pre + decimal(a).len()));
    assert(decimal(b) =~= hb.subrange(pre, pre + decimal(b).len()));
    lemma_decimal_injective(a, b);
}

} // verus!
