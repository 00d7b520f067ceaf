//! Text codecs shared by the protocol handlers: lowercase hex, canonical decimal
//! numbers, and the human readable form of a short channel id.

use vstd::prelude::*;
use vstd::string::*;

verus! {

/// Whether two texts are the same.
pub fn same_text(a: &str, b: &str) -> (res: bool)
    ensures
        res == (a@ == b@),
{
    let left = a.as_bytes();
    let right = b.as_bytes();
    proof {
        vstd::utf8::encode_utf8_decode_utf8(a@);
        vstd::utf8::encode_utf8_decode_utf8(b@);
    }
    if left.len() != right.len() {
        return false;
    }
    let mut i: usize = 0;
    while i < left.len()
        invariant
            i <= left.len(),
            left.len() == right.len(),
            left@ == vstd::utf8::encode_utf8(a@),
            right@ == vstd::utf8::encode_utf8(b@),
            forall|j: int| 0 <= j < i ==> left@[j] == right@[j],
        decreases left.len() - i,
    {
        if left[i] != right[i] {
            return false;
        }
        i += 1;
    }
    assert(left@ =~= right@);
    true
}

/// The character that stands for the hex digit `n`, for `0 <= n < 16`.
pub open spec fn hex_digit(n: int) -> char {
    if n < 10 {
        (('0' as u8) + n) as char
    } else {
        (('a' as u8) + n - 10) as char
    }
}

/// The lowercase hex encoding of `bytes`: two digits per byte, high nibble first.
pub open spec fn hex_text(bytes: Seq<u8>) -> Seq<char> {
    Seq::new(
        2 * bytes.len(),
        |i: int|
            if i % 2 == 0 {
                hex_digit(bytes[i / 2] as int / 16)
            } else {
                hex_digit(bytes[i / 2] as int % 16)
            },
    )
}

/// The text of one hex digit.
fn hex_digit_str(n: u8) -> (s: &'static str)
    requires
        n < 16,
    ensures
        s@ == seq![hex_digit(n as int)],
{
    proof {
        reveal_strlit("0");
        reveal_strlit("1");
        reveal_strlit("2");
        reveal_strlit("3");
        reveal_strlit("4");
        reveal_strlit("5");
        reveal_strlit("6");
        reveal_strlit("7");
        reveal_strlit("8");
        reveal_strlit("9");
        reveal_strlit("a");
        reveal_strlit("b");
        reveal_strlit("c");
        reveal_strlit("d");
        reveal_strlit("e");
        reveal_strlit("f");
    }
    let s = match n {
        0 => "0",
        1 => "1",
        2 => "2",
        3 => "3",
        4 => "4",
        5 => "5",
        6 => "6",
        7 => "7",
        8 => "8",
        9 => "9",
        10 => "a",
        11 => "b",
        12 => "c",
        13 => "d",
        14 => "e",
        _ => "f",
    };
    assert(s@ =~= seq![hex_digit(n as int)]);
    s
}

/// Encodes `value` as lowercase hex.
pub fn hex_str(value: &[u8]) -> (res: String)
    ensures
        res@ == hex_text(value@),
{
    let mut res = String::new();
    let mut i: usize = 0;
    while i < value.len()
        invariant
            i <= value.len(),
            res@ == hex_text(value@.take(i as int)),
        decreases value.len() - i,
    {
        let byte: u8 = value[i];
        let high: u8 = byte / 16;
        let low: u8 = byte % 16;
        res.append(hex_digit_str(high));
        res.append(hex_digit_str(low));
        i += 1;
        assert(res@ =~= hex_text(value@.take(i as int)));
    }
    assert(value@.take(i as int) =~= value@);
    res
}

/// Whether every character of `text` is a lowercase hex digit.
pub open spec fn is_lower_hex(text: Seq<char>) -> bool {
    forall|i: int|
        0 <= i < text.len() ==> ('0' <= #[trigger] text[i] <= '9' || 'a' <= text[i] <= 'f')
}

/// The hex encoding of a byte string has two characters for each byte, and each
/// is a lowercase hex digit.
pub proof fn lemma_hex_text_shape(bytes: Seq<u8>)
    ensures
        hex_text(bytes).len() == 2 * bytes.len(),
        is_lower_hex(hex_text(bytes)),
{
    let text = hex_text(bytes);
    assert forall|i: int| 0 <= i < text.len() implies ('0' <= #[trigger] text[i] <= '9' || 'a'
        <= text[i] <= 'f') by {
        let byte = bytes[i / 2] as int;
        let nibble = if i % 2 == 0 {
            byte / 16
        } else {
            byte % 16
        };
        assert(0 <= nibble < 16);
        assert(text[i] == hex_digit(nibble));
    }
}

/// Distinct nibbles have distinct hex digits.
pub proof fn lemma_hex_digit_injective(m: int, n: int)
    requires
        0 <= m < 16,
        0 <= n < 16,
        hex_digit(m) == hex_digit(n),
    ensures
        m == n,
{
    assert(hex_digit(m) as int == if m < 10 {
        48 + m
    } else {
        87 + m
    });
    assert(hex_digit(n) as int == if n < 10 {
        48 + n
    } else {
        87 + n
    });
}

/// Two byte strings with the same hex encoding are equal.
pub proof fn lemma_hex_text_injective(a: Seq<u8>, b: Seq<u8>)
    requires
        hex_text(a) == hex_text(b),
    ensures
        a == b,
{
    assert(hex_text(a).len() == 2 * a.len());
    assert(hex_text(b).len() == 2 * b.len());
    assert forall|i: int| 0 <= i < a.len() implies a[i] == b[i] by {
        assert((2 * i) / 2 == i && (2 * i) % 2 == 0);
        assert((2 * i + 1) / 2 == i && (2 * i + 1) % 2 == 1);
        assert(hex_text(a)[2 * i] == hex_digit(a[i] as int / 16));
        assert(hex_text(b)[2 * i] == hex_digit(b[i] as int / 16));
        assert(hex_text(a)[2 * i + 1] == hex_digit(a[i] as int % 16));
        assert(hex_text(b)[2 * i + 1] == hex_digit(b[i] as int % 16));
        lemma_hex_digit_injective(a[i] as int / 16, b[i] as int / 16);
        lemma_hex_digit_injective(a[i] as int % 16, b[i] as int % 16);
    }
    assert(a =~= b);
}

/// The character that stands for the decimal digit `d`, for `0 <= d < 10`.
pub open spec fn digit_char(d: int) -> char {
    (('0' as u8) + d) as char
}

/// Whether `c` is one of `'0'` to `'9'`.
pub open spec fn is_digit(c: char) -> bool {
    '0' <= c && c <= '9'
}

/// The canonical decimal text of `n`: no sign and no leading zero.
pub open spec fn decimal_text(n: nat) -> Seq<char>
    decreases n,
{
    if n < 10 {
        seq![digit_char(n as int)]
    } else {
        decimal_text(n / 10).push(digit_char((n % 10) as int))
    }
}

/// The number that a run of decimal digits stands for.
pub open spec fn decimal_value(s: Seq<char>) -> nat
    decreases s.len(),
{
    if s.len() == 0 {
        0
    } else {
        (decimal_value(s.drop_last()) * 10 + (s.last() as int - '0' as int)) as nat
    }
}

/// Whether `s` is a canonical decimal text: at least one digit, only digits, and
/// no leading zero in front of another digit.
pub open spec fn is_canonical_decimal(s: Seq<char>) -> bool {
    &&& s.len() > 0
    &&& forall|i: int| 0 <= i < s.len() ==> is_digit(#[trigger] s[i])
    &&& (s.len() > 1 ==> s[0] != '0')
}

/// `decimal_text` writes canonical texts, and `decimal_value` reads them back.
pub proof fn lemma_decimal_text_canonical(n: nat)
    ensures
        is_canonical_decimal(decimal_text(n)),
        decimal_value(decimal_text(n)) == n,
        n < 10 <==> decimal_text(n).len() == 1,
    decreases n,
{
    if n < 10 {
        let s = decimal_text(n);
        assert(s.drop_last() =~= Seq::<char>::empty());
        assert(decimal_value(s.drop_last()) == 0);
    } else {
        lemma_decimal_text_canonical(n / 10);
        let head = decimal_text(n / 10);
        let s = decimal_text(n);
        assert(s.drop_last() =~= head);
        assert(s[0] == head[0]);
        if head.len() == 1 {
            assert(n / 10 < 10);
            assert(head =~= seq![digit_char((n / 10) as int)]);
        }
        assert forall|i: int| 0 <= i < s.len() implies is_digit(#[trigger] s[i]) by {
            if i < head.len() {
                assert(s[i] == head[i]);
            }
        }
    }
}

/// Every canonical decimal text is the text of the number it stands for.
pub proof fn lemma_canonical_decimal_text(s: Seq<char>)
    requires
        is_canonical_decimal(s),
    ensures
        decimal_text(decimal_value(s)) == s,
    decreases s.len(),
{
    let last = s.last() as int - '0' as int;
    if s.len() == 1 {
        assert(s.drop_last() =~= Seq::<char>::empty());
        assert(decimal_value(s.drop_last()) == 0);
        assert(decimal_value(s) == last);
        assert(decimal_text(last as nat) =~= s);
    } else {
        let head = s.drop_last();
        assert(is_canonical_decimal(head)) by {
            assert forall|i: int| 0 <= i < head.len() implies is_digit(#[trigger] head[i]) by {
                assert(head[i] == s[i]);
            }
            assert(head[0] == s[0]);
        }
        lemma_canonical_decimal_text(head);
        lemma_decimal_value_lower_bound(head);
        let v = decimal_value(head);
        assert(v > 0);
        assert(decimal_value(s) == v * 10 + last);
        assert((v * 10 + last) / 10 == v);
        assert((v * 10 + last) % 10 == last);
        assert(decimal_text(decimal_value(s)) =~= s);
    }
}

/// A canonical text with a nonzero first digit, or with more than one digit,
/// stands for a positive number.
pub proof fn lemma_decimal_value_lower_bound(s: Seq<char>)
    requires
        is_canonical_decimal(s),
    ensures
        s.len() > 1 || s[0] != '0' ==> decimal_value(s) > 0,
    decreases s.len(),
{
    if s.len() == 1 {
        assert(s.drop_last() =~= Seq::<char>::empty());
        assert(decimal_value(s.drop_last()) == 0);
    } else {
        let head = s.drop_last();
        assert(is_canonical_decimal(head)) by {
            assert forall|i: int| 0 <= i < head.len() implies is_digit(#[trigger] head[i]) by {
                assert(head[i] == s[i]);
            }
            assert(head[0] == s[0]);
        }
        lemma_decimal_value_lower_bound(head);
        assert(head[0] == s[0]);
    }
}

/// Two numbers with the same canonical decimal text are equal.
pub proof fn lemma_decimal_text_injective(a: nat, b: nat)
    requires
        decimal_text(a) == decimal_text(b),
    ensures
        a == b,
{
    lemma_decimal_text_canonical(a);
    lemma_decimal_text_canonical(b);
}

/// The text of one decimal digit.
fn digit_str(d: u8) -> (s: &'static str)
    requires
        d < 10,
    ensures
        s@ == seq![digit_char(d as int)],
{
    let s = hex_digit_str(d);
    assert(s@ =~= seq![digit_char(d as int)]);
    s
}

/// Writes `n` in canonical decimal.
pub fn format_decimal(n: u64) -> (res: String)
    ensures
        res@ == decimal_text(n as nat),
{
    let mut digits: Vec<u8> = Vec::new();
    digits.push((n % 10) as u8);
    let mut rest: u64 = n / 10;
    while rest > 0
        invariant
            digits.len() > 0,
            forall|i: int| 0 <= i < digits.len() ==> digits[i] < 10,
            decimal_text(n as nat) == (if rest > 0 {
                decimal_text(rest as nat)
            } else {
                Seq::<char>::empty()
            }) + Seq::new(
                digits.len() as nat,
                |i: int| digit_char(digits[digits.len() - 1 - i] as int),
            ),
        decreases rest,
    {
        let ghost before = digits@;
        let ghost tail = Seq::new(
            before.len(),
            |i: int| digit_char(before[before.len() - 1 - i] as int),
        );
        digits.push((rest % 10) as u8);
        let ghost shifted = Seq::new(
            digits.len() as nat,
            |i: int| digit_char(digits[digits.len() - 1 - i] as int),
        );
        assert(shifted =~= seq![digit_char((rest % 10) as int)] + tail);
        assert(decimal_text(rest as nat) =~= (if rest / 10 > 0 {
            decimal_text((rest / 10) as nat)
        } else {
            Seq::<char>::empty()
        }) + seq![digit_char((rest % 10) as int)]);
        rest = rest / 10;
    }
    let mut res = String::new();
    let mut k: usize = digits.len();
    while k > 0
        invariant
            k <= digits.len(),
            forall|i: int| 0 <= i < digits.len() ==> digits[i] < 10,
            res@ == Seq::new(
                (digits.len() - k) as nat,
                |i: int| digit_char(digits[digits.len() - 1 - i] as int),
            ),
        decreases k,
    {
        k -= 1;
        res.append(digit_str(digits[k]));
        assert(res@ =~= Seq::new(
            (digits.len() - k) as nat,
            |i: int| digit_char(digits[digits.len() - 1 - i] as int),
        ));
    }
    assert(decimal_text(n as nat) =~= res@);
    res
}

/// The value of a run of digits is at least the value of each of its prefixes.
pub proof fn lemma_decimal_value_prefix(s: Seq<char>, k: int)
    requires
        0 <= k <= s.len(),
        forall|i: int| 0 <= i < s.len() ==> is_digit(#[trigger] s[i]),
    ensures
        decimal_value(s.take(k)) <= decimal_value(s),
    decreases s.len() - k,
{
    if k == s.len() {
        assert(s.take(k) =~= s);
    } else {
        lemma_decimal_value_prefix(s, k + 1);
        let longer = s.take(k + 1);
        assert(longer.drop_last() =~= s.take(k));
        assert(is_digit(s[k]));
        assert(longer.last() == s[k]);
    }
}

/// Reads the canonical decimal number that `text[from..to]` spells, provided it
/// is at most `max`.
pub(crate) fn parse_decimal_in(text: &str, from: usize, to: usize, max: u64) -> (res: Option<u64>)
    requires
        text.is_ascii(),
        from <= to <= text@.len(),
    ensures
        match res {
            Some(v) => v <= max && decimal_text(v as nat) == text@.subrange(
                from as int,
                to as int,
            ),
            None => forall|v: nat|
                v <= max ==> #[trigger] decimal_text(v) != text@.subrange(from as int, to as int),
        },
{
    broadcast use is_ascii_spec_bytes;

    let bytes = text.as_bytes();
    let ghost s = text@.subrange(from as int, to as int);
    assert(forall|i: int| 0 <= i < s.len() ==> bytes@[from + i] == (#[trigger] s[i]) as u8);
    assert(forall|i: int| 0 <= i < s.len() ==> '\0' <= (#[trigger] s[i]) <= '\u{7f}') by {
        assert forall|i: int| 0 <= i < s.len() implies '\0' <= (#[trigger] s[i]) <= '\u{7f}' by {
            assert(s[i] == text@[from + i]);
        }
    }
    if from == to || (to - from > 1 && bytes[from] == 48) {
        assert forall|v: nat| v <= max implies #[trigger] decimal_text(v) != s by {
            lemma_decimal_text_canonical(v);
            if s.len() > 1 {
                assert(bytes@[from + 0] == s[0] as u8);
            }
        }
        return None;
    }
    let mut acc: u64 = 0;
    let mut i: usize = from;
    while i < to
        invariant
            from <= i <= to <= text@.len(),
            bytes@.len() == text@.len(),
            s == text@.subrange(from as int, to as int),
            forall|j: int| 0 <= j < s.len() ==> bytes@[from + j] == (#[trigger] s[j]) as u8,
            forall|j: int| 0 <= j < s.len() ==> '\0' <= (#[trigger] s[j]) <= '\u{7f}',
            forall|j: int| 0 <= j < i - from ==> is_digit(#[trigger] s[j]),
            acc == decimal_value(s.take(i - from)),
            acc <= max,
        decreases to - i,
    {
        let b: u8 = bytes[i];
        let ghost c = s[i - from];
        assert(b == c as u8);
        if b < 48 || b > 57 {
            assert(!is_digit(c));
            assert forall|v: nat| v <= max implies #[trigger] decimal_text(v) != s by {
                lemma_decimal_text_canonical(v);
            }
            return None;
        }
        assert(is_digit(c));
        let d: u64 = (b - 48) as u64;
        let ghost next = s.take(i - from + 1);
        assert(next.drop_last() =~= s.take(i - from));
        assert(next.last() == c);
        assert(decimal_value(next) == acc * 10 + d);
        if d > max || acc > (max - d) / 10 {
            assert(acc * 10 + d > max);
            assert forall|v: nat| v <= max implies #[trigger] decimal_text(v) != s by {
                lemma_decimal_text_canonical(v);
                if decimal_text(v) == s {
                    lemma_decimal_value_prefix(s, i - from + 1);
                }
            }
            return None;
        }
        acc = acc * 10 + d;
        i += 1;
    }
    proof {
        assert(s.take(to - from) =~= s);
        assert(is_canonical_decimal(s)) by {
            if s.len() > 1 {
                assert(bytes@[from + 0] == s[0] as u8);
            }
        }
        lemma_canonical_decimal_text(s);
    }
    Some(acc)
}

/// Reads the canonical decimal number that `text` spells, provided it is at most
/// `max`.
pub fn parse_decimal(text: &str, max: u64) -> (res: Option<u64>)
    ensures
        match res {
            Some(v) => v <= max && decimal_text(v as nat) == text@,
            None => forall|v: nat| v <= max ==> #[trigger] decimal_text(v) != text@,
        },
{
    if !text.is_ascii() {
        assert forall|v: nat| v <= max implies #[trigger] decimal_text(v) != text@ by {
            lemma_decimal_text_canonical(v);
        }
        return None;
    }
    broadcast use is_ascii_spec_bytes;

    let n = text.as_bytes().len();
    assert(text@.subrange(0, n as int) =~= text@);
    parse_decimal_in(text, 0, n, max)
}

/// The largest block height that fits a short channel id.
pub const MAX_SCID_BLOCK: u64 = 0x00ff_ffff;

/// The largest transaction index that fits a short channel id.
pub const MAX_SCID_TX_INDEX: u64 = 0x00ff_ffff;

/// The largest output index that fits a short channel id.
pub const MAX_SCID_VOUT_INDEX: u64 = 0xffff;

/// The block height held in the 24 high bits of a short channel id.
pub open spec fn scid_block(scid: u64) -> nat {
    (scid as nat) / 0x100_0000_0000
}

/// The transaction index held in the 24 middle bits of a short channel id.
pub open spec fn scid_tx_index(scid: u64) -> nat {
    ((scid as nat) / 0x1_0000) % 0x100_0000
}

/// The output index held in the 16 low bits of a short channel id.
pub open spec fn scid_vout(scid: u64) -> nat {
    (scid as nat) % 0x1_0000
}

/// The short channel id made of a block height, a transaction index and an
/// output index.
pub open spec fn scid_from_parts_spec(block: nat, tx_index: nat, vout: nat) -> nat {
    block * 0x100_0000_0000 + tx_index * 0x1_0000 + vout
}

/// The human readable form of a short channel id: block height, transaction
/// index and output index in canonical decimal, separated by `x`.
pub open spec fn scid_text(scid: u64) -> Seq<char> {
    decimal_text(scid_block(scid)) + seq!['x'] + decimal_text(scid_tx_index(scid)) + seq!['x']
        + decimal_text(scid_vout(scid))
}

/// Extracts the block height from a short channel id.
pub fn block_from_scid(short_channel_id: &u64) -> (block: u32)
    ensures
        block == scid_block(*short_channel_id),
{
    (*short_channel_id / 0x100_0000_0000) as u32
}

/// Extracts the transaction index from a short channel id.
pub fn tx_index_from_scid(short_channel_id: &u64) -> (tx_index: u32)
    ensures
        tx_index == scid_tx_index(*short_channel_id),
{
    ((*short_channel_id / 0x1_0000) % 0x100_0000) as u32
}

/// Extracts the output index from a short channel id.
pub fn vout_from_scid(short_channel_id: &u64) -> (vout: u16)
    ensures
        vout == scid_vout(*short_channel_id),
{
    (*short_channel_id % 0x1_0000) as u16
}

/// Builds a short channel id from its three parts, or fails when a part does not
/// fit its field.
pub fn scid_from_parts(block: u64, tx_index: u64, vout_index: u64) -> (res: Result<u64, ()>)
    ensures
        res is Ok <==> block <= MAX_SCID_BLOCK && tx_index <= MAX_SCID_TX_INDEX && vout_index
            <= MAX_SCID_VOUT_INDEX,
        res matches Ok(scid) ==> {
            &&& scid == scid_from_parts_spec(block as nat, tx_index as nat, vout_index as nat)
            &&& scid_block(scid) == block
            &&& scid_tx_index(scid) == tx_index
            &&& scid_vout(scid) == vout_index
        },
{
    if block > MAX_SCID_BLOCK || tx_index > MAX_SCID_TX_INDEX || vout_index > MAX_SCID_VOUT_INDEX {
        return Err(());
    }
    proof {
        lemma_scid_from_parts(block, tx_index, vout_index);
    }
    Ok(block * 0x100_0000_0000 + tx_index * 0x1_0000 + vout_index)
}

/// Three parts that fit their fields make a short channel id that holds them.
pub proof fn lemma_scid_from_parts(block: u64, tx_index: u64, vout: u64)
    requires
        block <= MAX_SCID_BLOCK,
        tx_index <= MAX_SCID_TX_INDEX,
        vout <= MAX_SCID_VOUT_INDEX,
    ensures
        block * 0x100_0000_0000 + tx_index * 0x1_0000 + vout <= u64::MAX,
        scid_block((block * 0x100_0000_0000 + tx_index * 0x1_0000 + vout) as u64) == block,
        scid_tx_index((block * 0x100_0000_0000 + tx_index * 0x1_0000 + vout) as u64) == tx_index,
        scid_vout((block * 0x100_0000_0000 + tx_index * 0x1_0000 + vout) as u64) == vout,
{
    let high: int = block * 0x100_0000_0000;
    let middle: int = tx_index * 0x1_0000;
    let low: int = middle + vout;
    assert(low < 0x100_0000_0000);
    assert(low / 0x1_0000 == tx_index as int && low % 0x1_0000 == vout as int);
    assert((high + low) / 0x100_0000_0000 == block as int && (high + low) % 0x100_0000_0000
        == low) by (nonlinear_arith)
        requires
            high == block * 0x100_0000_0000,
            0 <= low < 0x100_0000_0000,
    ;
    let scid: int = high + low;
    assert(scid / 0x1_0000 == block * 0x100_0000 + tx_index && scid % 0x1_0000 == vout as int)
        by (nonlinear_arith)
        requires
            scid == block * 0x100_0000 * 0x1_0000 + tx_index * 0x1_0000 + vout,
            0 <= vout < 0x1_0000,
    ;
    assert((block * 0x100_0000 + tx_index) % 0x100_0000 == tx_index as int) by (nonlinear_arith)
        requires
            0 <= tx_index < 0x100_0000,
            0 <= block,
    ;
}

/// A short channel id is made of its own three parts, and each part fits its
/// field.
pub proof fn lemma_scid_parts(scid: u64)
    ensures
        scid == scid_from_parts_spec(scid_block(scid), scid_tx_index(scid), scid_vout(scid)),
        scid_block(scid) <= MAX_SCID_BLOCK,
        scid_tx_index(scid) <= MAX_SCID_TX_INDEX,
        scid_vout(scid) <= MAX_SCID_VOUT_INDEX,
{
    assert(scid == (scid / 0x100_0000_0000) * 0x100_0000_0000 + ((scid / 0x1_0000) % 0x100_0000)
        * 0x1_0000 + scid % 0x1_0000) by (bit_vector);
    assert(scid / 0x100_0000_0000 <= 0x00ff_ffff) by (bit_vector);
}

/// Where the separators of a human readable short channel id stand, and what
/// lies between them.
proof fn lemma_scid_text_shape(scid: u64)
    ensures
        ({
            let s = scid_text(scid);
            let first = decimal_text(scid_block(scid)).len() as int;
            let second = first + 1 + decimal_text(scid_tx_index(scid)).len();
            &&& 0 < first < second < s.len()
            &&& s[first] == 'x'
            &&& s[second] == 'x'
            &&& forall|i: int| 0 <= i < s.len() && i != first && i != second ==> is_digit(#[trigger] s[i])
            &&& s.subrange(0, first) == decimal_text(scid_block(scid))
            &&& s.subrange(first + 1, second) == decimal_text(scid_tx_index(scid))
            &&& s.subrange(second + 1, s.len() as int) == decimal_text(scid_vout(scid))
        }),
{
    let block = decimal_text(scid_block(scid));
    let tx_index = decimal_text(scid_tx_index(scid));
    let vout = decimal_text(scid_vout(scid));
    let s = scid_text(scid);
    let first = block.len() as int;
    let second = first + 1 + tx_index.len();
    lemma_decimal_text_canonical(scid_block(scid));
    lemma_decimal_text_canonical(scid_tx_index(scid));
    lemma_decimal_text_canonical(scid_vout(scid));
    assert forall|i: int| 0 <= i < s.len() && i != first && i != second implies is_digit(
        #[trigger] s[i],
    ) by {
        if i < first {
            assert(s[i] == block[i]);
        } else if i < second {
            assert(s[i] == tx_index[i - first - 1]);
        } else {
            assert(s[i] == vout[i - second - 1]);
        }
    }
    assert(s.subrange(0, first) =~= block);
    assert(s.subrange(first + 1, second) =~= tx_index);
    assert(s.subrange(second + 1, s.len() as int) =~= vout);
}

/// Finds the first `x` of an ASCII text at or after `from`.
fn find_separator(text: &str, from: usize) -> (res: Option<usize>)
    requires
        text.is_ascii(),
        from <= text@.len(),
    ensures
        match res {
            Some(at) => from <= at < text@.len() && text@[at as int] == 'x' && forall|i: int|
                from <= i < at ==> text@[i] != 'x',
            None => forall|i: int| from <= i < text@.len() ==> text@[i] != 'x',
        },
{
    broadcast use is_ascii_spec_bytes;

    let bytes = text.as_bytes();
    let mut at: usize = from;
    while at < bytes.len()
        invariant
            from <= at <= bytes@.len(),
            bytes@.len() == text@.len(),
            forall|i: int| 0 <= i < text@.len() ==> bytes@[i] == (#[trigger] text@[i]) as u8,
            forall|i: int| 0 <= i < text@.len() ==> '\0' <= (#[trigger] text@[i]) <= '\u{7f}',
            forall|i: int| from <= i < at ==> text@[i] != 'x',
        decreases bytes.len() - at,
    {
        if bytes[at] == 120 {
            assert(bytes@[at as int] == text@[at as int] as u8);
            return Some(at);
        }
        assert(bytes@[at as int] == text@[at as int] as u8);
        at += 1;
    }
    None
}

/// The short channel id whose human readable form is `text`, if there is one.
pub open spec fn scid_of_text(text: Seq<char>) -> Option<u64> {
    if exists|scid: u64| scid_text(scid) == text {
        Some(choose|scid: u64| scid_text(scid) == text)
    } else {
        None
    }
}

/// Reads a short channel id from its human readable form.
///
/// The text is accepted exactly when it is the human readable form of some short
/// channel id: three canonical decimal numbers separated by `x`, each within the
/// width of its field.
pub fn scid_from_human_readable_string(human_readable_scid: &str) -> (res: Result<u64, ()>)
    ensures
        match res {
            Ok(scid) => scid_of_text(human_readable_scid@) == Some(scid),
            Err(_) => scid_of_text(human_readable_scid@) is None,
        },
{
    let res = parse_scid(human_readable_scid);
    proof {
        if let Ok(scid) = res {
            let chosen = choose|other: u64| scid_text(other) == human_readable_scid@;
            lemma_scid_text_injective(chosen, scid);
        }
    }
    res
}

/// Reads a short channel id from its human readable form, and tells that no
/// short channel id has this form where there is none.
fn parse_scid(human_readable_scid: &str) -> (res: Result<u64, ()>)
    ensures
        match res {
            Ok(scid) => scid_text(scid) == human_readable_scid@,
            Err(_) => forall|scid: u64| #[trigger] scid_text(scid) != human_readable_scid@,
        },
{
    broadcast use is_ascii_spec_bytes;

    let text = human_readable_scid;
    if !text.is_ascii() {
        assert forall|scid: u64| #[trigger] scid_text(scid) != text@ by {
            lemma_scid_text_shape(scid);
        }
        return Err(());
    }
    let len = text.as_bytes().len();
    let first = match find_separator(text, 0) {
        Some(at) => at,
        None => {
            assert forall|scid: u64| #[trigger] scid_text(scid) != text@ by {
                lemma_scid_text_shape(scid);
            }
            return Err(());
        },
    };
    let second = match find_separator(text, first + 1) {
        Some(at) => at,
        None => {
            assert forall|scid: u64| #[trigger] scid_text(scid) != text@ by {
                lemma_scid_text_shape(scid);
                if scid_text(scid) == text@ {
                    let p = decimal_text(scid_block(scid)).len() as int;
                    assert(!is_digit(text@[first as int]));
                    assert(p == first);
                }
            }
            return Err(());
        },
    };
    proof {
        assert forall|scid: u64| scid_text(scid) == text@ implies decimal_text(
            scid_block(scid),
        ).len() == first && decimal_text(scid_block(scid)).len() + 1 + decimal_text(
            scid_tx_index(scid),
        ).len() == second by {
            lemma_scid_text_shape(scid);
            let p = decimal_text(scid_block(scid)).len() as int;
            let q = p + 1 + decimal_text(scid_tx_index(scid)).len();
            assert(!is_digit(text@[first as int]));
            assert(!is_digit(text@[second as int]));
            assert(p == first);
            assert(q == second);
        }
    }
    let block = match parse_decimal_in(text, 0, first, MAX_SCID_BLOCK) {
        Some(v) => v,
        None => {
            assert forall|scid: u64| #[trigger] scid_text(scid) != text@ by {
                lemma_scid_text_shape(scid);
                lemma_scid_parts(scid);
            }
            return Err(());
        },
    };
    let tx_index = match parse_decimal_in(text, first + 1, second, MAX_SCID_TX_INDEX) {
        Some(v) => v,
        None => {
            assert forall|scid: u64| #[trigger] scid_text(scid) != text@ by {
                lemma_scid_text_shape(scid);
                lemma_scid_parts(scid);
            }
            return Err(());
        },
    };
    let vout = match parse_decimal_in(text, second + 1, len, MAX_SCID_VOUT_INDEX) {
        Some(v) => v,
        None => {
            assert forall|scid: u64| #[trigger] scid_text(scid) != text@ by {
                lemma_scid_text_shape(scid);
                lemma_scid_parts(scid);
            }
            return Err(());
        },
    };
    match scid_from_parts(block, tx_index, vout) {
        Ok(scid) => {
            assert(scid_text(scid) =~= text@) by {
                assert(text@ =~= text@.subrange(0, first as int) + seq!['x'] + text@.subrange(
                    first + 1,
                    second as int,
                ) + seq!['x'] + text@.subrange(second + 1, len as int));
            }
            Ok(scid)
        },
        Err(_) => Err(()),
    }
}

/// Writes a short channel id in its human readable form.
pub fn scid_to_human_readable_string(short_channel_id: u64) -> (res: String)
    ensures
        res@ == scid_text(short_channel_id),
{
    proof {
        reveal_strlit("x");
    }
    let block = block_from_scid(&short_channel_id);
    let tx_index = tx_index_from_scid(&short_channel_id);
    let vout = vout_from_scid(&short_channel_id);
    let mut res = format_decimal(block as u64);
    assert("x"@ =~= seq!['x']);
    res.append("x");
    res.append(format_decimal(tx_index as u64).as_str());
    res.append("x");
    res.append(format_decimal(vout as u64).as_str());
    res
}

/// Two short channel ids with the same human readable form are equal.
pub proof fn lemma_scid_text_injective(a: u64, b: u64)
    requires
        scid_text(a) == scid_text(b),
    ensures
        a == b,
{
    lemma_scid_text_shape(a);
    lemma_scid_text_shape(b);
    lemma_scid_parts(a);
    lemma_scid_parts(b);
    let p = decimal_text(scid_block(a)).len() as int;
    let q = decimal_text(scid_block(b)).len() as int;
    let s = scid_text(a);
    assert(!is_digit(s[p]));
    assert(!is_digit(s[q]));
    assert(p == q);
    let p2 = p + 1 + decimal_text(scid_tx_index(a)).len();
    let q2 = q + 1 + decimal_text(scid_tx_index(b)).len();
    assert(!is_digit(s[p2]));
    assert(!is_digit(s[q2]));
    assert(p2 == q2);
    lemma_decimal_text_injective(scid_block(a), scid_block(b));
    lemma_decimal_text_injective(scid_tx_index(a), scid_tx_index(b));
    lemma_decimal_text_injective(scid_vout(a), scid_vout(b));
}

/// Reading the human readable form of a short channel id gives the id back.
pub proof fn lemma_scid_read_after_write(scid: u64)
    ensures
        scid_of_text(scid_text(scid)) == Some(scid),
{
    let chosen = choose|other: u64| scid_text(other) == scid_text(scid);
    lemma_scid_text_injective(chosen, scid);
}

/// Writing the short channel id that was read from a text gives the text back.
pub proof fn lemma_scid_write_after_read(text: Seq<char>, scid: u64)
    requires
        scid_of_text(text) == Some(scid),
    ensures
        scid_text(scid) == text,
{
}

/// The number of random bytes that make a request id.
pub const REQUEST_ID_BYTES: usize = 16;

/// The request id that 32 random bytes give: the first 16 of them in hex.
pub open spec fn request_id_text(random_bytes: Seq<u8>) -> Seq<char> {
    hex_text(random_bytes.subrange(0, 16))
}

/// Writes the request id that 32 random bytes give.
pub fn request_id_from_entropy(random_bytes: &[u8; 32]) -> (id: String)
    ensures
        id@ == request_id_text(random_bytes@),
{
    let mut head: Vec<u8> = Vec::new();
    let mut i: usize = 0;
    while i < REQUEST_ID_BYTES
        invariant
            i <= REQUEST_ID_BYTES,
            head@ == random_bytes@.subrange(0, i as int),
        decreases REQUEST_ID_BYTES - i,
    {
        head.push(random_bytes[i]);
        i += 1;
        assert(head@ =~= random_bytes@.subrange(0, i as int));
    }
    hex_str(head.as_slice())
}

} // verus!
