//! Start-code emulation prevention, and the SEI message scan, as done by hevc_parser.
use vstd::prelude::*;

verus! {

/// Number of zero bytes that end a sequence whose last two bytes are `a`, `b`, up to two.
pub open spec fn trailing_zeros(a: u8, b: u8) -> nat {
    if b != 0 {
        0
    } else if a != 0 {
        1
    } else {
        2
    }
}

/// Escapes `s` given that the bytes written so far end in `z` zero bytes (at most two
/// counted): a `0x03` goes in front of every byte up to `0x03` that follows two zeros.
pub open spec fn escape_from(s: Seq<u8>, z: nat) -> Seq<u8>
    decreases s.len(),
{
    if s.len() == 0 {
        seq![]
    } else if z >= 2 && s[0] <= 3 {
        seq![3u8, s[0]] + escape_from(s.drop_first(), if s[0] == 0 { 1 } else { 0 })
    } else {
        seq![s[0]] + escape_from(
            s.drop_first(),
            if s[0] != 0 { 0 } else if z >= 1 { 2 } else { 1 },
        )
    }
}

/// `s` with emulation prevention bytes inserted; its first three bytes are never escaped.
pub open spec fn escaped(s: Seq<u8>) -> Seq<u8> {
    if s.len() < 3 {
        s
    } else {
        s.subrange(0, 3) + escape_from(s.subrange(3, s.len() as int), trailing_zeros(s[1], s[2]))
    }
}

/// Two zero bytes after a byte above 0x03, then a byte up to 0x03: a 0x03 is inserted
/// right after the two zeros, whatever came before.
pub proof fn lemma_escape_zero_pair(x: u8, b: u8, q: Seq<u8>, z: nat)
    requires
        x > 3,
        b <= 3,
    ensures
        escape_from(seq![x, 0u8, 0u8, b] + q, z) == seq![x, 0u8, 0u8, 3u8, b] + escape_from(
            q,
            if b == 0 { 1 } else { 0 },
        ),
{
    let s0 = seq![x, 0u8, 0u8, b] + q;
    let s1 = seq![0u8, 0u8, b] + q;
    let s2 = seq![0u8, b] + q;
    let s3 = seq![b] + q;
    assert(s0.drop_first() =~= s1);
    assert(s1.drop_first() =~= s2);
    assert(s2.drop_first() =~= s3);
    assert(s3.drop_first() =~= q);
    assert(escape_from(s3, 2) == seq![3u8, b] + escape_from(q, if b == 0 { 1 } else { 0 }));
    assert(escape_from(s2, 1) == seq![0u8] + escape_from(s3, 2));
    assert(escape_from(s1, 0) == seq![0u8] + escape_from(s2, 1));
    assert(escape_from(s0, z) == seq![x] + escape_from(s1, 0));
    assert(escape_from(s0, z) =~= seq![x, 0u8, 0u8, 3u8, b] + escape_from(
        q,
        if b == 0 { 1 } else { 0 },
    ));
}

/// No two zero bytes of `o` are followed by a byte up to 0x02: `o` holds no start code
/// and no forbidden three-byte sequence.
pub open spec fn no_start_code(o: Seq<u8>) -> bool {
    forall|i: int|
        0 <= i && i + 2 < o.len() ==> !(#[trigger] o[i] == 0 && o[i + 1] == 0 && o[i + 2] <= 2)
}

/// What `escape_from` writes holds no start code, nor completes one with the `z` zero
/// bytes before it.
pub proof fn lemma_escape_from_no_start_code(s: Seq<u8>, z: nat)
    ensures
        no_start_code(escape_from(s, z)),
        z >= 2 && escape_from(s, z).len() > 0 ==> escape_from(s, z)[0] > 2,
        z >= 1 && escape_from(s, z).len() > 1 && escape_from(s, z)[0] == 0 ==> escape_from(s, z)[1] > 2,
        escape_from(s, z).len() >= s.len(),
    decreases s.len(),
{
    if s.len() > 0 {
        let o = escape_from(s, z);
        if z >= 2 && s[0] <= 3 {
            let z1: nat = if s[0] == 0 { 1 } else { 0 };
            let r = escape_from(s.drop_first(), z1);
            lemma_escape_from_no_start_code(s.drop_first(), z1);
            assert(o == seq![3u8, s[0]] + r);
            assert forall|i: int| 0 <= i && i + 2 < o.len() implies !(#[trigger] o[i] == 0 && o[i + 1]
                == 0 && o[i + 2] <= 2) by {
                if i >= 2 {
                    assert(o[i] == r[i - 2] && o[i + 1] == r[i - 1] && o[i + 2] == r[i]);
                    assert(!(r[i - 2] == 0 && r[i - 1] == 0 && r[i] <= 2));
                } else if i == 1 {
                    assert(o[1] == s[0] && o[2] == r[0] && o[3] == r[1]);
                    if s[0] == 0 && r[0] == 0 {
                        assert(r[1] > 2);
                    }
                } else {
                    assert(o[0] == 3u8);
                }
            }
        } else {
            let z1: nat = if s[0] != 0 { 0 } else if z >= 1 { 2 } else { 1 };
            let r = escape_from(s.drop_first(), z1);
            lemma_escape_from_no_start_code(s.drop_first(), z1);
            assert(o == seq![s[0]] + r);
            assert forall|i: int| 0 <= i && i + 2 < o.len() implies !(#[trigger] o[i] == 0 && o[i + 1]
                == 0 && o[i + 2] <= 2) by {
                if i >= 1 {
                    assert(o[i] == r[i - 1] && o[i + 1] == r[i] && o[i + 2] == r[i + 1]);
                    assert(!(r[i - 1] == 0 && r[i] == 0 && r[i + 1] <= 2));
                } else {
                    assert(o[0] == s[0] && o[1] == r[0] && o[2] == r[1]);
                    if s[0] == 0 && r[0] == 0 {
                        assert(r[1] > 2);
                    }
                }
            }
        }
    }
}

/// Emulation prevention leaves no two zero bytes followed by a byte up to 0x02, provided
/// the first three bytes, which it never escapes, are not such a sequence.
pub proof fn lemma_escaped_no_start_code(s: Seq<u8>)
    requires
        !(s.len() >= 3 && s[0] == 0 && s[1] == 0 && s[2] <= 2),
    ensures
        no_start_code(escaped(s)),
{
    if s.len() >= 3 {
        let z = trailing_zeros(s[1], s[2]);
        let r = escape_from(s.subrange(3, s.len() as int), z);
        lemma_escape_from_no_start_code(s.subrange(3, s.len() as int), z);
        let o = escaped(s);
        assert(o == s.subrange(0, 3) + r);
        assert forall|i: int| 0 <= i && i + 2 < o.len() implies !(#[trigger] o[i] == 0 && o[i + 1]
            == 0 && o[i + 2] <= 2) by {
            if i >= 3 {
                assert(o[i] == r[i - 3] && o[i + 1] == r[i - 2] && o[i + 2] == r[i - 1]);
                assert(!(r[i - 3] == 0 && r[i - 2] == 0 && r[i - 1] <= 2));
            } else if i == 2 {
                assert(o[2] == s[2] && o[3] == r[0] && o[4] == r[1]);
                if s[2] == 0 && r[0] == 0 {
                    assert(r[1] > 2);
                }
            } else if i == 1 {
                assert(o[1] == s[1] && o[2] == s[2] && o[3] == r[0]);
                if s[1] == 0 && s[2] == 0 {
                    assert(r[0] > 2);
                }
            } else {
                assert(o[0] == s[0] && o[1] == s[1] && o[2] == s[2]);
            }
        }
    }
}

/// The bytes of `s` from index `i` on, less every `0x03` that follows two zero bytes of `s`.
pub open spec fn unescape_from(s: Seq<u8>, i: int) -> Seq<u8>
    decreases s.len() - i,
{
    if i < 2 || i >= s.len() {
        seq![]
    } else if s[i - 2] == 0 && s[i - 1] == 0 && s[i] == 3 {
        unescape_from(s, i + 1)
    } else {
        seq![s[i]] + unescape_from(s, i + 1)
    }
}

/// `s` with its emulation prevention bytes removed.
pub open spec fn unescaped(s: Seq<u8>) -> Seq<u8> {
    if s.len() > 2 {
        s.subrange(0, 2) + unescape_from(s, 2)
    } else {
        s
    }
}

/// Inputs from this many bytes on are refused by `scan_fits`: a payload size counted in
/// bits could then exceed a `u32`.
pub const MAX_SCAN_LEN: usize = 0x400_0000;

/// Walking the SEI messages of `s` the way hevc_parser does, from a message that starts at
/// byte `p`, no payload type exceeds 255. A message starts with its payload type: bytes
/// 0xFF count 255 each and the first other byte ends it. The walk ends where data runs out.
pub open spec fn message_fits(s: Seq<u8>, p: int) -> bool
    decreases s.len() - p, 1int,
{
    if p < 0 || p >= s.len() {
        true
    } else if s[p] != 0xFF {
        size_fits(s, p + 1, 0)
    } else if p + 1 >= s.len() {
        true
    } else if s[p + 1] == 0 {
        size_fits(s, p + 2, 0)
    } else if s[p + 1] == 0xFF && p + 2 >= s.len() {
        true
    } else {
        false
    }
}

/// Goes on from byte `q` inside a payload size field that has counted `acc` so far: after
/// the size and the payload, the next message starts, unless at most one byte is left.
pub open spec fn size_fits(s: Seq<u8>, q: int, acc: nat) -> bool
    decreases s.len() - q, 0int,
{
    if q < 0 || q >= s.len() {
        true
    } else if s[q] == 0xFF {
        size_fits(s, q + 1, acc + 255)
    } else {
        let next = q + 1 + acc + s[q];
        if next > s.len() || s.len() - next <= 1 {
            true
        } else {
            message_fits(s, next)
        }
    }
}

/// hevc_parser can scan `s` (a 2-byte NAL header, then the messages) without overflow.
pub open spec fn scan_fits(s: Seq<u8>) -> bool {
    s.len() < MAX_SCAN_LEN && message_fits(s, 2)
}

/// Tells whether hevc_parser's message scan of `rbsp` stays free of overflow.
pub fn sei_scan_fits(rbsp: &[u8]) -> (r: bool)
    ensures
        r == scan_fits(rbsp@),
{
    let n: usize = rbsp.len();
    if n >= MAX_SCAN_LEN {
        return false;
    }
    let mut q: usize = 2;
    let mut at_start = true;
    let mut acc: u64 = 0;
    while q < n
        invariant
            n == rbsp@.len(),
            n < MAX_SCAN_LEN,
            2 <= q,
            acc <= 255 * q,
            scan_fits(rbsp@) == if at_start {
                message_fits(rbsp@, q as int)
            } else {
                size_fits(rbsp@, q as int, acc as nat)
            },
        decreases n - q,
    {
        if at_start {
            if rbsp[q] != 0xFF {
                q = q + 1;
            } else if q + 1 >= n {
                return true;
            } else if rbsp[q + 1] == 0 {
                q = q + 2;
            } else if rbsp[q + 1] == 0xFF && q + 2 >= n {
                return true;
            } else {
                return false;
            }
            at_start = false;
            acc = 0;
        } else if rbsp[q] == 0xFF {
            acc = acc + 255;
            q = q + 1;
        } else {
            let next: u64 = q as u64 + 1 + acc + rbsp[q] as u64;
            if next > n as u64 || n as u64 - next <= 1 {
                return true;
            }
            q = next as usize;
            at_start = true;
        }
    }
    true
}

/// Where the first byte is not zero, leaving the first three bytes unescaped changes
/// nothing: `escaped` inserts exactly what escaping from the very first byte would.
pub proof fn lemma_escaped_from_start(s: Seq<u8>)
    requires
        s.len() >= 1,
        s[0] != 0,
    ensures
        escaped(s) == escape_from(s, 0),
{
    let s1 = s.drop_first();
    assert(escape_from(s, 0) == seq![s[0]] + escape_from(s1, 0));
    if s.len() == 1 {
        assert(escape_from(s1, 0) == Seq::<u8>::empty());
        assert(escape_from(s, 0) =~= s);
    } else {
        let s2 = s1.drop_first();
        let z1: nat = if s[1] == 0 { 1 } else { 0 };
        assert(escape_from(s1, 0) == seq![s[1]] + escape_from(s2, z1));
        if s.len() == 2 {
            assert(escape_from(s2, z1) == Seq::<u8>::empty());
            assert(escape_from(s, 0) =~= s);
        } else {
            let s3 = s2.drop_first();
            assert(s3 =~= s.subrange(3, s.len() as int));
            assert(escape_from(s2, z1) == seq![s[2]] + escape_from(s3, trailing_zeros(s[1], s[2])));
            assert(escape_from(s, 0) =~= s.subrange(0, 3) + escape_from(s3, trailing_zeros(s[1], s[2])));
        }
    }
}

/// Removing emulation prevention bytes after `a`, whose last two bytes end in `z` zeros,
/// undoes `escape_from`.
proof fn lemma_unescape_escape_from(a: Seq<u8>, s: Seq<u8>, z: nat)
    requires
        a.len() >= 2,
        z == trailing_zeros(a[a.len() - 2], a[a.len() - 1]),
    ensures
        unescape_from(a + escape_from(s, z), a.len() as int) == s,
    decreases s.len(),
{
    let n = a.len() as int;
    let o = a + escape_from(s, z);
    if s.len() == 0 {
        assert(o =~= a);
        assert(s =~= seq![]);
    } else if z >= 2 && s[0] <= 3 {
        let z1: nat = if s[0] == 0 { 1 } else { 0 };
        let r = escape_from(s.drop_first(), z1);
        let a1 = a + seq![3u8, s[0]];
        assert(o =~= a1 + r);
        assert(o[n - 2] == 0 && o[n - 1] == 0 && o[n] == 3 && o[n + 1] == s[0]);
        lemma_unescape_escape_from(a1, s.drop_first(), z1);
        assert(unescape_from(o, n + 1) == seq![s[0]] + unescape_from(o, n + 2));
        assert(unescape_from(o, n) == unescape_from(o, n + 1));
        assert(seq![s[0]] + s.drop_first() =~= s);
    } else {
        let z1: nat = if s[0] != 0 { 0 } else if z >= 1 { 2 } else { 1 };
        let r = escape_from(s.drop_first(), z1);
        let a1 = a + seq![s[0]];
        assert(o =~= a1 + r);
        assert(o[n - 2] == a[n - 2] && o[n - 1] == a[n - 1] && o[n] == s[0]);
        lemma_unescape_escape_from(a1, s.drop_first(), z1);
        assert(unescape_from(o, n) == seq![s[0]] + unescape_from(o, n + 1));
        assert(seq![s[0]] + s.drop_first() =~= s);
    }
}

/// Removing emulation prevention bytes gives back what they were inserted into, provided
/// the first three bytes, which are never escaped, do not read as an escaped zero pair.
pub proof fn lemma_unescaped_escaped(s: Seq<u8>)
    requires
        !(s.len() >= 3 && s[0] == 0 && s[1] == 0 && s[2] == 3),
    ensures
        unescaped(escaped(s)) == s,
{
    if s.len() >= 3 {
        let a = s.subrange(0, 3);
        let z = trailing_zeros(s[1], s[2]);
        let o = escaped(s);
        lemma_unescape_escape_from(a, s.subrange(3, s.len() as int), z);
        assert(o.len() > 2);
        assert(o[0] == s[0] && o[1] == s[1] && o[2] == s[2]);
        assert(unescape_from(o, 2) == seq![s[2]] + unescape_from(o, 3));
        assert(unescaped(o) =~= s);
    }
}

/// The (payload type, payload offset, payload size) of each SEI message that hevc_parser
/// finds in an unescaped SEI NAL (header included), or `None` where it reports an error.
pub uninterp spec fn sei_messages_of(rbsp: Seq<u8>) -> Option<Seq<(u8, usize, usize)>>;

#[verifier::external_type_specification]
#[verifier::external_body]
pub struct ExAnyhowError(anyhow::Error);

/// Relies on hevc_parser::utils::add_start_code_emulation_prevention_3_byte, which inserts
/// a 0x03 byte wherever two zero bytes are followed by a byte up to 0x03, from index 3 on.
#[verifier::external_body]
pub(crate) fn add_emulation_prevention(data: &mut Vec<u8>)
    ensures
        final(data)@ == escaped(old(data)@),
{
    hevc_parser::utils::add_start_code_emulation_prevention_3_byte(data)
}

/// Relies on hevc_parser::utils::clear_start_code_emulation_prevention_3_byte, which drops
/// each 0x03 byte that follows two zero bytes of its input.
#[verifier::external_body]
pub(crate) fn clear_emulation_prevention(data: &[u8]) -> (r: Vec<u8>)
    ensures
        r@ == unescaped(data@),
{
    hevc_parser::utils::clear_start_code_emulation_prevention_3_byte(data)
}

/// Relies on hevc_parser::hevc::SeiMessage::parse_sei_rbsp to locate the messages of an
/// SEI NAL; each message is handed on as its type, offset and size. That scan keeps a
/// payload type in a `u8` and a payload size in bits in a `u32`, so `requires` leaves out
/// the inputs on which either would overflow.
#[verifier::external_body]
pub(crate) fn parse_sei_rbsp(rbsp: &[u8]) -> (r: Result<Vec<(u8, usize, usize)>, anyhow::Error>)
    requires
        scan_fits(rbsp@),
    ensures
        match r {
            Ok(v) => sei_messages_of(rbsp@) == Some(v@),
            Err(_) => sei_messages_of(rbsp@) is None,
        },
{
    hevc_parser::hevc::SeiMessage::parse_sei_rbsp(rbsp).map(
        |v| v.iter().map(|m| (m.payload_type, m.payload_offset, m.payload_size)).collect(),
    )
}

} // verus!
