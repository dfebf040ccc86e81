//! The wake datagram: a hardware address read as `:`-separated hexadecimal
//! groups, and the magic packet built from it — six `0xff` bytes followed by
//! the address's bytes sixteen times.

use vstd::prelude::*;
use vstd::string::StringSliceAdditionalSpecFns;

use crate::error::Error;

verus! {

/// The value of a byte read as one hexadecimal digit, or -1.
pub open spec fn hex_digit_val(b: u8) -> int {
    if 48 <= b && b <= 57 {
        b - 48
    } else if 65 <= b && b <= 70 {
        b - 55
    } else if 97 <= b && b <= 102 {
        b - 87
    } else {
        -1
    }
}

/// The value of digits read as hexadecimal, most significant first.
pub open spec fn hex_value(d: Seq<u8>) -> int
    decreases d.len(),
{
    if d.len() == 0 {
        0
    } else {
        hex_value(d.drop_last()) * 16 + hex_digit_val(d.last())
    }
}

/// The digits of one group: a single leading `+` is read over.
pub open spec fn group_digits(g: Seq<u8>) -> Seq<u8> {
    if g.len() > 0 && g[0] == 43 {
        g.skip(1)
    } else {
        g
    }
}

/// One `:`-separated group reads as a byte: at least one digit, all of them
/// hexadecimal, and a value of at most 255.
pub open spec fn group_ok(g: Seq<u8>) -> bool {
    let d = group_digits(g);
    d.len() > 0 && (forall|i: int| 0 <= i < d.len() ==> hex_digit_val(#[trigger] d[i]) >= 0)
        && hex_value(d) <= 255
}

/// The byte one group reads as.
pub open spec fn group_byte(g: Seq<u8>) -> u8 {
    hex_value(group_digits(g)) as u8
}

/// The index of the first `:`, or -1 where there is none.
pub open spec fn first_colon(s: Seq<u8>) -> int
    decreases s.len(),
{
    if s.len() == 0 {
        -1
    } else if s[0] == 58 {
        0
    } else {
        let r = first_colon(s.skip(1));
        if r < 0 {
            -1
        } else {
            r + 1
        }
    }
}

/// Every `:`-separated group of the text reads as a byte.
pub open spec fn groups_ok(s: Seq<u8>) -> bool
    decreases s.len(),
{
    let i = first_colon(s);
    if i < 0 || i >= s.len() {
        group_ok(s)
    } else {
        group_ok(s.take(i)) && groups_ok(s.skip(i + 1))
    }
}

/// The bytes the `:`-separated groups read as, in order.
pub open spec fn groups_bytes(s: Seq<u8>) -> Seq<u8>
    decreases s.len(),
{
    let i = first_colon(s);
    if i < 0 || i >= s.len() {
        seq![group_byte(s)]
    } else {
        seq![group_byte(s.take(i))] + groups_bytes(s.skip(i + 1))
    }
}

proof fn lemma_first_colon(s: Seq<u8>)
    ensures
        first_colon(s) >= 0 ==> 0 <= first_colon(s) < s.len() && s[first_colon(s)] == 58 && (forall|
            j: int,
        |
            0 <= j < first_colon(s) ==> s[j] != 58),
        first_colon(s) < 0 ==> (forall|j: int| 0 <= j < s.len() ==> s[j] != 58),
    decreases s.len(),
{
    if s.len() == 0 {
    } else if s[0] == 58 {
    } else {
        lemma_first_colon(s.skip(1));
        assert forall|j: int| 1 <= j < s.len() implies s[j] == s.skip(1)[j - 1] by {}
    }
}

proof fn lemma_hex_value_nonneg(d: Seq<u8>)
    requires
        forall|i: int| 0 <= i < d.len() ==> hex_digit_val(#[trigger] d[i]) >= 0,
    ensures
        hex_value(d) >= 0,
    decreases d.len(),
{
    if d.len() > 0 {
        lemma_hex_value_nonneg(d.drop_last());
    }
}

proof fn lemma_hex_take_step(d: Seq<u8>, i: int)
    requires
        0 <= i < d.len(),
    ensures
        hex_value(d.take(i + 1)) == hex_value(d.take(i)) * 16 + hex_digit_val(d[i]),
{
    assert(d.take(i + 1).drop_last() =~= d.take(i));
}

proof fn lemma_hex_prefix_le(d: Seq<u8>, i: int)
    requires
        0 <= i <= d.len(),
        forall|j: int| 0 <= j < d.len() ==> hex_digit_val(#[trigger] d[j]) >= 0,
    ensures
        hex_value(d.take(i)) <= hex_value(d),
    decreases d.len() - i,
{
    if i == d.len() {
        assert(d.take(i) =~= d);
    } else {
        lemma_hex_take_step(d, i);
        assert forall|j: int| 0 <= j < d.take(i).len() implies hex_digit_val(
            #[trigger] d.take(i)[j],
        ) >= 0 by {}
        lemma_hex_value_nonneg(d.take(i));
        lemma_hex_prefix_le(d, i + 1);
    }
}

/// One group of the address text, `bytes[from..to]`, read as a byte.
fn parse_group(bytes: &[u8], from: usize, to: usize) -> (r: Result<u8, Error>)
    requires
        from <= to <= bytes@.len(),
    ensures
        r matches Ok(b) ==> group_ok(bytes@.subrange(from as int, to as int)) && b == group_byte(
            bytes@.subrange(from as int, to as int),
        ),
        r is Err ==> !group_ok(bytes@.subrange(from as int, to as int)) && (r matches Err(e)
            && e is ParseInt),
{
    let ghost g = bytes@.subrange(from as int, to as int);
    let mut p = from;
    if p < to && bytes[p] == 43 {
        p = p + 1;
    }
    let ghost d = group_digits(g);
    proof {
        assert(d =~= bytes@.subrange(p as int, to as int));
    }
    if p == to {
        return Err(Error::ParseInt);
    }
    let mut acc: u32 = 0;
    let mut q = p;
    while q < to
        invariant
            from <= p <= q <= to,
            to <= bytes@.len(),
            g == bytes@.subrange(from as int, to as int),
            d == group_digits(g),
            d =~= bytes@.subrange(p as int, to as int),
            forall|i: int| 0 <= i < q - p ==> hex_digit_val(#[trigger] d[i]) >= 0,
            acc == hex_value(d.take(q - p)),
            acc <= 255,
        decreases to - q,
    {
        let b = bytes[q];
        let v: u32 = if 48 <= b && b <= 57 {
            (b - 48) as u32
        } else if 65 <= b && b <= 70 {
            (b - 55) as u32
        } else if 97 <= b && b <= 102 {
            (b - 87) as u32
        } else {
            assert(hex_digit_val(d[q - p]) < 0);
            return Err(Error::ParseInt);
        };
        proof {
            lemma_hex_take_step(d, q - p);
        }
        acc = acc * 16 + v;
        if acc > 255 {
            proof {
                assert(acc == hex_value(d.take(q - p + 1)));
                if group_ok(g) {
                    lemma_hex_prefix_le(d, q - p + 1);
                }
            }
            return Err(Error::ParseInt);
        }
        q = q + 1;
    }
    proof {
        assert(d.take(to - p) =~= d);
    }
    Ok(acc as u8)
}

/// The groups of `bytes[from..]`, each read as a byte.
fn parse_rest(bytes: &[u8], from: usize) -> (r: Result<Vec<u8>, Error>)
    requires
        from <= bytes@.len(),
    ensures
        r matches Ok(v) ==> groups_ok(bytes@.skip(from as int)) && v@ == groups_bytes(
            bytes@.skip(from as int),
        ),
        r is Err ==> !groups_ok(bytes@.skip(from as int)) && (r matches Err(e) && e is ParseInt),
    decreases bytes@.len() - from,
{
    let ghost s = bytes@.skip(from as int);
    let n = bytes.len();
    let mut j = from;
    while j < n && bytes[j] != 58
        invariant
            from <= j <= n,
            n == bytes@.len(),
            forall|k: int| from <= k < j ==> bytes@[k] != 58,
        decreases n - j,
    {
        j = j + 1;
    }
    proof {
        lemma_first_colon(s);
        assert forall|i: int| 0 <= i < s.len() implies s[i] == bytes@[from + i] by {}
        if j < n {
            assert(s[j - from] == 58);
            let fc = first_colon(s);
            if fc < 0 {
            } else if fc < j - from {
                assert(bytes@[from + fc] != 58);
            } else if fc > j - from {
                assert(s[j - from] != 58);
            }
            assert(first_colon(s) == j - from);
        } else {
            if first_colon(s) >= 0 {
                assert(bytes@[from + first_colon(s)] == 58);
            }
        }
    }
    if j == n {
        proof {
            assert(bytes@.subrange(from as int, n as int) =~= s);
        }
        let b = match parse_group(bytes, from, n) {
            Ok(b) => b,
            Err(e) => {
                return Err(e);
            },
        };
        let mut v: Vec<u8> = Vec::new();
        v.push(b);
        proof {
            assert(v@ =~= seq![group_byte(s)]);
        }
        Ok(v)
    } else {
        proof {
            assert(bytes@.subrange(from as int, j as int) =~= s.take(j - from));
        }
        let b = match parse_group(bytes, from, j) {
            Ok(b) => b,
            Err(e) => {
                return Err(e);
            },
        };
        proof {
            assert(bytes@.skip(j + 1) =~= s.skip(j - from + 1));
        }
        let mut rest = match parse_rest(bytes, j + 1) {
            Ok(v) => v,
            Err(e) => {
                return Err(e);
            },
        };
        let ghost tail = rest@;
        rest.insert(0, b);
        proof {
            assert(rest@ =~= seq![group_byte(s.take(j - from))] + tail);
        }
        Ok(rest)
    }
}

/// The fixed head of the magic packet.
pub open spec fn six_ff() -> Seq<u8> {
    seq![255u8, 255u8, 255u8, 255u8, 255u8, 255u8]
}

/// The address bytes written `k` times over.
pub open spec fn repeated(mac: Seq<u8>, k: nat) -> Seq<u8>
    decreases k,
{
    if k == 0 {
        Seq::empty()
    } else {
        repeated(mac, (k - 1) as nat) + mac
    }
}

/// The magic packet for the address bytes: six `0xff` bytes, then the
/// address sixteen times.
pub open spec fn magic_packet(mac: Seq<u8>) -> Seq<u8> {
    six_ff() + repeated(mac, 16)
}

/// Creates the magic packet from a hardware address written as
/// `:`-separated hexadecimal groups; a group that does not read as a byte
/// is rejected.
pub fn create_buffer(mac_addr: &str) -> (r: Result<Vec<u8>, Error>)
    ensures
        r matches Ok(buf) ==> groups_ok(mac_addr.spec_bytes()) && buf@ == magic_packet(
            groups_bytes(mac_addr.spec_bytes()),
        ),
        r is Err ==> !groups_ok(mac_addr.spec_bytes()) && (r matches Err(e) && e is ParseInt),
{
    let bytes = mac_addr.as_bytes();
    proof {
        assert(bytes@.skip(0) =~= bytes@);
    }
    let mac = match parse_rest(bytes, 0) {
        Ok(m) => m,
        Err(e) => {
            return Err(e);
        },
    };
    let mut buf: Vec<u8> = Vec::new();
    let mut i: usize = 0;
    while i < 6
        invariant
            0 <= i <= 6,
            buf@ =~= six_ff().take(i as int),
        decreases 6 - i,
    {
        buf.push(255);
        proof {
            assert(buf@ =~= six_ff().take(i + 1));
        }
        i = i + 1;
    }
    proof {
        assert(buf@ =~= six_ff());
    }
    let mut t: usize = 0;
    while t < 16
        invariant
            0 <= t <= 16,
            buf@ =~= six_ff() + repeated(mac@, t as nat),
        decreases 16 - t,
    {
        let mut k: usize = 0;
        while k < mac.len()
            invariant
                0 <= k <= mac@.len(),
                t < 16,
                buf@ =~= six_ff() + repeated(mac@, t as nat) + mac@.take(k as int),
            decreases mac@.len() - k,
        {
            buf.push(mac[k]);
            proof {
                assert(buf@ =~= six_ff() + repeated(mac@, t as nat) + mac@.take(k + 1));
            }
            k = k + 1;
        }
        proof {
            assert(mac@.take(mac@.len() as int) =~= mac@);
            assert(buf@ =~= six_ff() + repeated(mac@, (t + 1) as nat));
        }
        t = t + 1;
    }
    Ok(buf)
}

} // verus!
