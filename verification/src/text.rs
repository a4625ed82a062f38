//! Building blocks for the textual forms the library emits: decimal and
//! hexadecimal renderings of integers, with exact character-level contracts.

use vstd::prelude::*;

verus! {

/// The sixteen lower-case hexadecimal digit characters, in value order.
pub const HEX_DIGITS: [char; 16] = [
    '0', '1', '2', '3', '4', '5', '6', '7', '8', '9', 'a', 'b', 'c', 'd', 'e', 'f',
];

/// The decimal rendering of `n`, most significant digit first, no leading
/// zeros (except for `n == 0`, which renders as "0").
pub open spec fn spec_dec(n: nat) -> Seq<char>
    decreases n,
{
    if n < 10 {
        seq![HEX_DIGITS@[n as int]]
    } else {
        spec_dec(n / 10) + seq![HEX_DIGITS@[(n % 10) as int]]
    }
}

/// A single digit value as a one-character string slice.
pub fn digit_str(d: u8) -> (r: &'static str)
    requires
        d < 16,
    ensures
        r@ =~= seq![HEX_DIGITS@[d as int]],
{
    proof {
        reveal_strlit("0");
        reveal_strlit("1");
        reveal_strlit("2");
        reveal_strlit("3");
        reveal_strlit("4");
        reveal_strlit("5");
        reveal_strlit("6");
        reveal_strlit("7");
        reveal_strlit("8");
        reveal_strlit("9");
        reveal_strlit("a");
        reveal_strlit("b");
        reveal_strlit("c");
        reveal_strlit("d");
        reveal_strlit("e");
        reveal_strlit("f");
    }
    match d {
        0 => "0",
        1 => "1",
        2 => "2",
        3 => "3",
        4 => "4",
        5 => "5",
        6 => "6",
        7 => "7",
        8 => "8",
        9 => "9",
        10 => "a",
        11 => "b",
        12 => "c",
        13 => "d",
        14 => "e",
        _ => "f",
    }
}

/// Appends the decimal rendering of `n` to `s`.
pub fn append_dec(s: &mut String, n: u64)
    ensures
        final(s)@ == old(s)@ + spec_dec(n as nat),
    decreases n,
{
    if n >= 10 {
        append_dec(s, n / 10);
    }
    let d = digit_str((n % 10) as u8);
    s.append(d);
}

/// The decimal rendering of `n` as a fresh string.
pub fn dec_string(n: u64) -> (r: String)
    ensures
        r@ == spec_dec(n as nat),
{
    let mut s = String::new();
    append_dec(&mut s, n);
    assert(s@ =~= spec_dec(n as nat));
    s
}

/// The decimal rendering of `n`, zero-padded on the left to at least two
/// characters.
pub open spec fn spec_pad2(n: nat) -> Seq<char> {
    if n < 10 {
        seq!['0'] + spec_dec(n)
    } else {
        spec_dec(n)
    }
}

/// The decimal rendering of `n`, zero-padded on the left to at least three
/// characters.
pub open spec fn spec_pad3(n: nat) -> Seq<char> {
    if n < 10 {
        seq!['0', '0'] + spec_dec(n)
    } else if n < 100 {
        seq!['0'] + spec_dec(n)
    } else {
        spec_dec(n)
    }
}

/// Appends the decimal rendering of `n`, zero-padded to at least two
/// characters, to `s`.
pub fn append_pad2(s: &mut String, n: u64)
    ensures
        final(s)@ == old(s)@ + spec_pad2(n as nat),
{
    proof {
        reveal_strlit("0");
    }
    if n < 10 {
        s.append("0");
        assert(s@ =~= old(s)@ + seq!['0']);
    }
    append_dec(s, n);
    assert(s@ =~= old(s)@ + spec_pad2(n as nat));
}

/// Appends the decimal rendering of `n`, zero-padded to at least three
/// characters, to `s`.
pub fn append_pad3(s: &mut String, n: u64)
    ensures
        final(s)@ == old(s)@ + spec_pad3(n as nat),
{
    proof {
        reveal_strlit("0");
        reveal_strlit("00");
    }
    if n < 10 {
        s.append("00");
        assert(s@ =~= old(s)@ + seq!['0', '0']);
    } else if n < 100 {
        s.append("0");
        assert(s@ =~= old(s)@ + seq!['0']);
    }
    append_dec(s, n);
    assert(s@ =~= old(s)@ + spec_pad3(n as nat));
}

/// The nibble of `v` at position `k` (in units of four bits, little-endian).
pub open spec fn spec_nibble(v: u128, k: int) -> int {
    ((v >> ((4 * k) as u128)) & 0xf) as int
}

/// The 32-character lower-case hexadecimal rendering of `v`, most
/// significant nibble first, always exactly 32 characters wide.
pub open spec fn spec_hex32(v: u128) -> Seq<char> {
    Seq::new(32, |i: int| HEX_DIGITS@[spec_nibble(v, 31 - i)])
}

/// The fixed-width hexadecimal rendering of `v` as a string.
pub fn hex32_string(v: u128) -> (r: String)
    ensures
        r@ == spec_hex32(v),
{
    let mut s = String::new();
    let mut i: usize = 0;
    while i < 32
        invariant
            i <= 32,
            s@ =~= spec_hex32(v).take(i as int),
        decreases 32 - i,
    {
        let sh: u128 = (4 * (31 - i)) as u128;
        let d: u128 = (v >> sh) & 0xf;
        assert((v >> sh) & 0xf < 16) by (bit_vector);
        s.append(digit_str(d as u8));
        assert(d as int == spec_nibble(v, 31 - i as int));
        assert(s@ =~= spec_hex32(v).take(i as int + 1));
        i = i + 1;
    }
    assert(s@ =~= spec_hex32(v));
    s
}

/// Every character of the hexadecimal rendering is one of the sixteen digit
/// characters.
pub proof fn lemma_hex32_is_hex(v: u128, i: int)
    requires
        0 <= i < 32,
    ensures
        0 <= spec_nibble(v, 31 - i) < 16,
        spec_hex32(v)[i] == HEX_DIGITS@[spec_nibble(v, 31 - i)],
{
    let sh = ((4 * (31 - i)) as u128);
    assert(((v >> sh) & 0xf) < 16) by (bit_vector);
}


/// The fixed-width hexadecimal rendering is injective: distinct values have
/// distinct renderings, so distinct cache keys always get distinct serving
/// ids.
pub proof fn lemma_hex32_injective(v1: u128, v2: u128)
    requires
        spec_hex32(v1) == spec_hex32(v2),
    ensures
        v1 == v2,
{
    assert(forall|a: int, b: int|
        0 <= a < 16 && 0 <= b < 16 && a != b ==> HEX_DIGITS@[a] != HEX_DIGITS@[b]);
    assert forall|k: int| 0 <= k < 32 implies spec_nibble(v1, k) == spec_nibble(v2, k) by {
        let i = 31 - k;
        assert(spec_hex32(v1)[i] == spec_hex32(v2)[i]);
        lemma_hex32_is_hex(v1, i);
        lemma_hex32_is_hex(v2, i);
    }
    assert(spec_nibble(v1, 0) == ((v1 >> 0u128) & 0xf) && spec_nibble(v2, 0) == ((v2 >> 0u128) & 0xf));
    assert(spec_nibble(v1, 1) == ((v1 >> 4u128) & 0xf) && spec_nibble(v2, 1) == ((v2 >> 4u128) & 0xf));
    assert(spec_nibble(v1, 2) == ((v1 >> 8u128) & 0xf) && spec_nibble(v2, 2) == ((v2 >> 8u128) & 0xf));
    assert(spec_nibble(v1, 3) == ((v1 >> 12u128) & 0xf) && spec_nibble(v2, 3) == ((v2 >> 12u128) & 0xf));
    assert(spec_nibble(v1, 4) == ((v1 >> 16u128) & 0xf) && spec_nibble(v2, 4) == ((v2 >> 16u128) & 0xf));
    assert(spec_nibble(v1, 5) == ((v1 >> 20u128) & 0xf) && spec_nibble(v2, 5) == ((v2 >> 20u128) & 0xf));
    assert(spec_nibble(v1, 6) == ((v1 >> 24u128) & 0xf) && spec_nibble(v2, 6) == ((v2 >> 24u128) & 0xf));
    assert(spec_nibble(v1, 7) == ((v1 >> 28u128) & 0xf) && spec_nibble(v2, 7) == ((v2 >> 28u128) & 0xf));
    assert(spec_nibble(v1, 8) == ((v1 >> 32u128) & 0xf) && spec_nibble(v2, 8) == ((v2 >> 32u128) & 0xf));
    assert(spec_nibble(v1, 9) == ((v1 >> 36u128) & 0xf) && spec_nibble(v2, 9) == ((v2 >> 36u128) & 0xf));
    assert(spec_nibble(v1, 10) == ((v1 >> 40u128) & 0xf) && spec_nibble(v2, 10) == ((v2 >> 40u128) & 0xf));
    assert(spec_nibble(v1, 11) == ((v1 >> 44u128) & 0xf) && spec_nibble(v2, 11) == ((v2 >> 44u128) & 0xf));
    assert(spec_nibble(v1, 12) == ((v1 >> 48u128) & 0xf) && spec_nibble(v2, 12) == ((v2 >> 48u128) & 0xf));
    assert(spec_nibble(v1, 13) == ((v1 >> 52u128) & 0xf) && spec_nibble(v2, 13) == ((v2 >> 52u128) & 0xf));
    assert(spec_nibble(v1, 14) == ((v1 >> 56u128) & 0xf) && spec_nibble(v2, 14) == ((v2 >> 56u128) & 0xf));
    assert(spec_nibble(v1, 15) == ((v1 >> 60u128) & 0xf) && spec_nibble(v2, 15) == ((v2 >> 60u128) & 0xf));
    assert(spec_nibble(v1, 16) == ((v1 >> 64u128) & 0xf) && spec_nibble(v2, 16) == ((v2 >> 64u128) & 0xf));
    assert(spec_nibble(v1, 17) == ((v1 >> 68u128) & 0xf) && spec_nibble(v2, 17) == ((v2 >> 68u128) & 0xf));
    assert(spec_nibble(v1, 18) == ((v1 >> 72u128) & 0xf) && spec_nibble(v2, 18) == ((v2 >> 72u128) & 0xf));
    assert(spec_nibble(v1, 19) == ((v1 >> 76u128) & 0xf) && spec_nibble(v2, 19) == ((v2 >> 76u128) & 0xf));
    assert(spec_nibble(v1, 20) == ((v1 >> 80u128) & 0xf) && spec_nibble(v2, 20) == ((v2 >> 80u128) & 0xf));
    assert(spec_nibble(v1, 21) == ((v1 >> 84u128) & 0xf) && spec_nibble(v2, 21) == ((v2 >> 84u128) & 0xf));
    assert(spec_nibble(v1, 22) == ((v1 >> 88u128) & 0xf) && spec_nibble(v2, 22) == ((v2 >> 88u128) & 0xf));
    assert(spec_nibble(v1, 23) == ((v1 >> 92u128) & 0xf) && spec_nibble(v2, 23) == ((v2 >> 92u128) & 0xf));
    assert(spec_nibble(v1, 24) == ((v1 >> 96u128) & 0xf) && spec_nibble(v2, 24) == ((v2 >> 96u128) & 0xf));
    assert(spec_nibble(v1, 25) == ((v1 >> 100u128) & 0xf) && spec_nibble(v2, 25) == ((v2 >> 100u128) & 0xf));
    assert(spec_nibble(v1, 26) == ((v1 >> 104u128) & 0xf) && spec_nibble(v2, 26) == ((v2 >> 104u128) & 0xf));
    assert(spec_nibble(v1, 27) == ((v1 >> 108u128) & 0xf) && spec_nibble(v2, 27) == ((v2 >> 108u128) & 0xf));
    assert(spec_nibble(v1, 28) == ((v1 >> 112u128) & 0xf) && spec_nibble(v2, 28) == ((v2 >> 112u128) & 0xf));
    assert(spec_nibble(v1, 29) == ((v1 >> 116u128) & 0xf) && spec_nibble(v2, 29) == ((v2 >> 116u128) & 0xf));
    assert(spec_nibble(v1, 30) == ((v1 >> 120u128) & 0xf) && spec_nibble(v2, 30) == ((v2 >> 120u128) & 0xf));
    assert(spec_nibble(v1, 31) == ((v1 >> 124u128) & 0xf) && spec_nibble(v2, 31) == ((v2 >> 124u128) & 0xf));
    assert(v1 == v2) by (bit_vector)
        requires
            ((v1 >> 0u128) & 0xf) == ((v2 >> 0u128) & 0xf),
            ((v1 >> 4u128) & 0xf) == ((v2 >> 4u128) & 0xf),
            ((v1 >> 8u128) & 0xf) == ((v2 >> 8u128) & 0xf),
            ((v1 >> 12u128) & 0xf) == ((v2 >> 12u128) & 0xf),
            ((v1 >> 16u128) & 0xf) == ((v2 >> 16u128) & 0xf),
            ((v1 >> 20u128) & 0xf) == ((v2 >> 20u128) & 0xf),
            ((v1 >> 24u128) & 0xf) == ((v2 >> 24u128) & 0xf),
            ((v1 >> 28u128) & 0xf) == ((v2 >> 28u128) & 0xf),
            ((v1 >> 32u128) & 0xf) == ((v2 >> 32u128) & 0xf),
            ((v1 >> 36u128) & 0xf) == ((v2 >> 36u128) & 0xf),
            ((v1 >> 40u128) & 0xf) == ((v2 >> 40u128) & 0xf),
            ((v1 >> 44u128) & 0xf) == ((v2 >> 44u128) & 0xf),
            ((v1 >> 48u128) & 0xf) == ((v2 >> 48u128) & 0xf),
            ((v1 >> 52u128) & 0xf) == ((v2 >> 52u128) & 0xf),
            ((v1 >> 56u128) & 0xf) == ((v2 >> 56u128) & 0xf),
            ((v1 >> 60u128) & 0xf) == ((v2 >> 60u128) & 0xf),
            ((v1 >> 64u128) & 0xf) == ((v2 >> 64u128) & 0xf),
            ((v1 >> 68u128) & 0xf) == ((v2 >> 68u128) & 0xf),
            ((v1 >> 72u128) & 0xf) == ((v2 >> 72u128) & 0xf),
            ((v1 >> 76u128) & 0xf) == ((v2 >> 76u128) & 0xf),
            ((v1 >> 80u128) & 0xf) == ((v2 >> 80u128) & 0xf),
            ((v1 >> 84u128) & 0xf) == ((v2 >> 84u128) & 0xf),
            ((v1 >> 88u128) & 0xf) == ((v2 >> 88u128) & 0xf),
            ((v1 >> 92u128) & 0xf) == ((v2 >> 92u128) & 0xf),
            ((v1 >> 96u128) & 0xf) == ((v2 >> 96u128) & 0xf),
            ((v1 >> 100u128) & 0xf) == ((v2 >> 100u128) & 0xf),
            ((v1 >> 104u128) & 0xf) == ((v2 >> 104u128) & 0xf),
            ((v1 >> 108u128) & 0xf) == ((v2 >> 108u128) & 0xf),
            ((v1 >> 112u128) & 0xf) == ((v2 >> 112u128) & 0xf),
            ((v1 >> 116u128) & 0xf) == ((v2 >> 116u128) & 0xf),
            ((v1 >> 120u128) & 0xf) == ((v2 >> 120u128) & 0xf),
            ((v1 >> 124u128) & 0xf) == ((v2 >> 124u128) & 0xf),
    ;
}

/// Character-for-character string equality.
pub fn str_eq(a: &str, b: &str) -> (r: bool)
    ensures
        r == (a@ == b@),
{
    let la = a.unicode_len();
    let lb = b.unicode_len();
    if la != lb {
        return false;
    }
    let mut i: usize = 0;
    while i < la
        invariant
            i <= la,
            la == a@.len(),
            lb == b@.len(),
            la == lb,
            forall|j: int| 0 <= j < i ==> a@[j] == b@[j],
        decreases la - i,
    {
        if a.get_char(i) != b.get_char(i) {
            return false;
        }
        i = i + 1;
    }
    proof {
        assert(a@ =~= b@);
    }
    true
}

/// The index of the first occurrence of `c` in `s` at or after `from`, or
/// `s.len()` when there is none.
pub open spec fn spec_find(s: Seq<char>, from: int, c: char) -> int
    decreases s.len() - from,
{
    if from >= s.len() || from < 0 {
        s.len() as int
    } else if s[from] == c {
        from
    } else {
        spec_find(s, from + 1, c)
    }
}

/// What `spec_find` returns: the first occurrence, within bounds.
pub proof fn lemma_find_props(s: Seq<char>, from: int, c: char)
    requires
        0 <= from <= s.len(),
    ensures
        from <= spec_find(s, from, c) <= s.len(),
        spec_find(s, from, c) < s.len() ==> s[spec_find(s, from, c)] == c,
        forall|j: int| from <= j < spec_find(s, from, c) ==> s[j] != c,
    decreases s.len() - from,
{
    if from < s.len() && s[from] != c {
        lemma_find_props(s, from + 1, c);
    }
}

/// The converse: an occurrence with none before it is what `spec_find`
/// returns.
pub proof fn lemma_find_value(s: Seq<char>, from: int, c: char, k: int)
    requires
        0 <= from <= k < s.len(),
        s[k] == c,
        forall|j: int| from <= j < k ==> s[j] != c,
    ensures
        spec_find(s, from, c) == k,
    decreases k - from,
{
    if from < k {
        lemma_find_value(s, from + 1, c, k);
    }
}

/// Scans for the first occurrence of `c` at or after `from`.
pub fn find_char(s: &str, from: usize, c: char) -> (r: usize)
    requires
        from <= s@.len(),
    ensures
        r == spec_find(s@, from as int, c),
{
    let n = s.unicode_len();
    let mut i = from;
    while i < n
        invariant
            from <= i <= n,
            n == s@.len(),
            spec_find(s@, from as int, c) == spec_find(s@, i as int, c),
        decreases n - i,
    {
        if s.get_char(i) == c {
            return i;
        }
        i = i + 1;
    }
    n
}

/// The index of the last occurrence of `c` in `s`, or -1 when there is none.
pub open spec fn spec_rfind(s: Seq<char>, c: char) -> int
    decreases s.len(),
{
    if s.len() == 0 {
        -1
    } else if s.last() == c {
        s.len() - 1
    } else {
        spec_rfind(s.drop_last(), c)
    }
}

/// What `spec_rfind` returns: the last occurrence, within bounds.
pub proof fn lemma_rfind_props(s: Seq<char>, c: char)
    ensures
        -1 <= spec_rfind(s, c) < s.len(),
        spec_rfind(s, c) >= 0 ==> s[spec_rfind(s, c)] == c,
        forall|j: int| spec_rfind(s, c) < j < s.len() ==> s[j] != c,
    decreases s.len(),
{
    if s.len() > 0 && s.last() != c {
        lemma_rfind_props(s.drop_last(), c);
        assert forall|j: int| spec_rfind(s, c) < j < s.len() implies s[j] != c by {
            if j < s.len() - 1 {
                assert(s.drop_last()[j] == s[j]);
            }
        }
    }
}

/// Scans for the last occurrence of `c` in `s`.
pub fn rfind_char(s: &str, c: char) -> (r: Option<usize>)
    ensures
        match r {
            Some(i) => spec_rfind(s@, c) == i as int,
            None => spec_rfind(s@, c) == -1,
        },
{
    let n = s.unicode_len();
    let mut i = n;
    assert(s@.take(n as int) =~= s@);
    while i > 0
        invariant
            i <= n,
            n == s@.len(),
            spec_rfind(s@, c) == spec_rfind(s@.take(i as int), c),
        decreases i,
    {
        let prev = i;
        i = i - 1;
        proof {
            assert(s@.take(prev as int).last() == s@[i as int]);
            assert(s@.take(prev as int).drop_last() =~= s@.take(i as int));
        }
        if s.get_char(i) == c {
            return Some(i);
        }
    }
    assert(s@.take(0) =~= Seq::<char>::empty());
    None
}

} // verus!
