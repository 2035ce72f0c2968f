use nostr_sdk::{Filter, JsonUtil, SubscriptionId};
use std::collections::hash_map::DefaultHasher;
use std::hash::Hasher;
use vstd::prelude::*;
use vstd::std_specs::hash::DefaultHasherAdditionalSpecFns;
use vstd::utf8::encode_utf8;

verus! {

/// The lowercase hexadecimal digit for `d` (`0 <= d < 16`).
pub open spec fn hex_digit(d: int) -> char {
    seq!['0', '1', '2', '3', '4', '5', '6', '7', '8', '9', 'a', 'b', 'c', 'd', 'e', 'f'][d]
}

/// The last `n` hexadecimal digits of `v`, most significant first,
/// zero-padded: what `format!("{:0n$x}", v)` prints when `v < 16^n`.
pub open spec fn hex_text(v: nat, n: nat) -> Seq<char>
    decreases n,
{
    if n == 0 {
        Seq::empty()
    } else {
        hex_text(v / 16, (n - 1) as nat).push(hex_digit((v % 16) as int))
    }
}

/// The text of the subscription id for a filter hash: `format!("{:016x}", hash)`.
pub open spec fn id_text(hash: u64) -> Seq<char> {
    hex_text(hash as nat, 16)
}

/// Appends the last `n` hexadecimal digits of `v` to `out`.
fn push_hex(out: &mut String, v: u64, n: usize)
    ensures
        final(out)@ == old(out)@ + hex_text(v as nat, n as nat),
    decreases n,
{
    if n > 0 {
        push_hex(out, v / 16, n - 1);
        let digits = "0123456789abcdef";
        proof {
            reveal_strlit("0123456789abcdef");
        }
        let d = (v % 16) as usize;
        let s = digits.substring_char(d, d + 1);
        assert(s@ =~= seq![hex_digit(d as int)]);
        out.append(s);
        assert(final(out)@ =~= old(out)@ + hex_text(v as nat, n as nat));
    }
}

/// Formats a filter hash as a subscription id: 16 lowercase hexadecimal
/// digits, zero-padded (`format!("{:016x}", hash)`).
pub fn format_subscription_id(hash: u64) -> (text: String)
    ensures
        text@ == id_text(hash),
{
    let mut out = String::new();
    push_hex(&mut out, hash, 16);
    assert(out@ =~= id_text(hash));
    out
}

/// `16^n`.
pub open spec fn pow16(n: nat) -> nat
    decreases n,
{
    if n == 0 {
        1
    } else {
        16 * pow16((n - 1) as nat)
    }
}

/// Whether `c` is a lowercase hexadecimal digit.
pub open spec fn is_hex_lower(c: char) -> bool {
    ('0' <= c && c <= '9') || ('a' <= c && c <= 'f')
}

/// The value of a lowercase hexadecimal digit.
pub open spec fn hex_value(c: char) -> int {
    if '0' <= c && c <= '9' {
        c as int - '0' as int
    } else {
        c as int - 'a' as int + 10
    }
}

/// The number written by the hexadecimal digits `s`, most significant first.
pub open spec fn hex_number(s: Seq<char>) -> int
    decreases s.len(),
{
    if s.len() == 0 {
        0
    } else {
        hex_number(s.drop_last()) * 16 + hex_value(s.last())
    }
}

/// The filter hash that a subscription id text stands for: defined exactly
/// on the texts of 16 lowercase hexadecimal digits.
pub open spec fn parse_id_text(s: Seq<char>) -> Option<u64> {
    if s.len() == 16 && (forall|i: int| 0 <= i < 16 ==> is_hex_lower(#[trigger] s[i])) {
        Some(hex_number(s) as u64)
    } else {
        None
    }
}

/// The sixteen hexadecimal digits, one by one.
proof fn lemma_hex_digit_table()
    ensures
        hex_digit(0) == '0' && hex_digit(1) == '1' && hex_digit(2) == '2' && hex_digit(3) == '3',
        hex_digit(4) == '4' && hex_digit(5) == '5' && hex_digit(6) == '6' && hex_digit(7) == '7',
        hex_digit(8) == '8' && hex_digit(9) == '9' && hex_digit(10) == 'a' && hex_digit(11) == 'b',
        hex_digit(12) == 'c' && hex_digit(13) == 'd' && hex_digit(14) == 'e' && hex_digit(15) == 'f',
{
    let s = seq!['0', '1', '2', '3', '4', '5', '6', '7', '8', '9', 'a', 'b', 'c', 'd', 'e', 'f'];
    assert(s[0] == '0' && s[1] == '1' && s[2] == '2' && s[3] == '3');
    assert(s[4] == '4' && s[5] == '5' && s[6] == '6' && s[7] == '7');
    assert(s[8] == '8' && s[9] == '9' && s[10] == 'a' && s[11] == 'b');
    assert(s[12] == 'c' && s[13] == 'd' && s[14] == 'e' && s[15] == 'f');
}

proof fn lemma_digit_round_trip(k: int)
    requires
        0 <= k < 16,
    ensures
        is_hex_lower(hex_digit(k)),
        hex_value(hex_digit(k)) == k,
{
    lemma_hex_digit_table();
}

proof fn lemma_value_round_trip(c: char)
    requires
        is_hex_lower(c),
    ensures
        0 <= hex_value(c) < 16,
        hex_digit(hex_value(c)) == c,
{
    lemma_hex_digit_table();
}

proof fn lemma_hex_text_shape(v: nat, n: nat)
    ensures
        hex_text(v, n).len() == n,
        forall|i: int| 0 <= i < n ==> is_hex_lower(#[trigger] hex_text(v, n)[i]),
    decreases n,
{
    if n > 0 {
        lemma_hex_text_shape(v / 16, (n - 1) as nat);
        lemma_digit_round_trip((v % 16) as int);
    }
}

proof fn lemma_number_of_text(v: nat, n: nat)
    ensures
        hex_number(hex_text(v, n)) == v % pow16(n),
    decreases n,
{
    if n > 0 {
        let t = hex_text(v, n);
        lemma_number_of_text(v / 16, (n - 1) as nat);
        lemma_digit_round_trip((v % 16) as int);
        assert(t.drop_last() =~= hex_text(v / 16, (n - 1) as nat));
        lemma_pow16_positive((n - 1) as nat);
        vstd::arithmetic::div_mod::lemma_mod_breakdown(v as int, 16, pow16((n - 1) as nat) as int);
    }
}

proof fn lemma_pow16_positive(n: nat)
    ensures
        pow16(n) > 0,
    decreases n,
{
    if n > 0 {
        lemma_pow16_positive((n - 1) as nat);
    }
}

proof fn lemma_pow16_monotonic(a: nat, b: nat)
    requires
        a <= b,
    ensures
        pow16(a) <= pow16(b),
    decreases b,
{
    if a < b {
        lemma_pow16_monotonic(a, (b - 1) as nat);
        lemma_pow16_positive((b - 1) as nat);
    }
}

proof fn lemma_pow16_16()
    ensures
        pow16(16) == 0x1_0000_0000_0000_0000,
{
    reveal_with_fuel(pow16, 17);
}

proof fn lemma_text_of_number(s: Seq<char>)
    requires
        forall|i: int| 0 <= i < s.len() ==> is_hex_lower(#[trigger] s[i]),
    ensures
        0 <= hex_number(s) < pow16(s.len()),
        hex_text(hex_number(s) as nat, s.len()) == s,
    decreases s.len(),
{
    if s.len() > 0 {
        let p = s.drop_last();
        let c = s.last();
        assert(forall|i: int| 0 <= i < p.len() ==> p[i] == s[i]);
        lemma_text_of_number(p);
        lemma_value_round_trip(c);
        let num = hex_number(s);
        assert(num == hex_number(p) * 16 + hex_value(c));
        assert(num / 16 == hex_number(p));
        assert(num % 16 == hex_value(c));
        assert(hex_text(num as nat, s.len()) =~= s);
    }
}

/// The ASCII code of the lowercase hexadecimal digit for `d`.
pub open spec fn digit_code(d: int) -> int {
    if d < 10 {
        48 + d
    } else {
        87 + d
    }
}

/// Each hexadecimal digit is the ASCII character `0`-`9` or `a`-`f` for its
/// value.
pub proof fn lemma_hex_digit_code(d: int)
    requires
        0 <= d < 16,
    ensures
        hex_digit(d) as int == digit_code(d),
{
    lemma_hex_digit_table();
}

proof fn lemma_hex_text_digits(v: nat, n: nat)
    ensures
        hex_text(v, n).len() == n,
        forall|i: int|
            0 <= i < n ==> #[trigger] hex_text(v, n)[i] as int == digit_code(
                ((v / pow16((n - 1 - i) as nat)) % 16) as int,
            ),
    decreases n,
{
    if n > 0 {
        let t = hex_text(v, n);
        lemma_hex_text_digits(v / 16, (n - 1) as nat);
        lemma_hex_digit_code((v % 16) as int);
        assert forall|i: int| 0 <= i < n implies #[trigger] t[i] as int == digit_code(
            ((v / pow16((n - 1 - i) as nat)) % 16) as int,
        ) by {
            if i < n - 1 {
                let k = (n - 2 - i) as nat;
                let m = (n - 1) as nat;
                lemma_pow16_positive(k);
                vstd::arithmetic::div_mod::lemma_div_denominator(v as int, 16, pow16(k) as int);
                assert((m - 1 - i) as nat == k);
                assert((n - 1 - i) as nat == k + 1);
                assert(pow16(k + 1) == 16 * pow16(k));
                assert(t[i] == hex_text(v / 16, m)[i]);
                assert(hex_text(v / 16, m)[i] as int == digit_code(
                    (((v / 16) / pow16((m - 1 - i) as nat)) % 16) as int,
                ));
                assert((v / 16) as int / pow16(k) as int == v as int / (16 * pow16(k)) as int);
                assert((v / 16) / pow16(k) == v / pow16((n - 1 - i) as nat));
            } else {
                assert((n - 1 - i) as nat == 0);
                assert(pow16(0) == 1);
                assert(pow16((n - 1 - i) as nat) == 1);
                assert(v / 1 == v) by (nonlinear_arith);
                assert(t[i] == hex_digit((v % 16) as int));
            }
        }
    }
}

/// Digit `i` of a subscription id (counting from the left) is the ASCII
/// lowercase hexadecimal digit of `(hash / 16^(15 - i)) % 16`: the id is
/// `format!("{:016x}", hash)`.
pub proof fn lemma_id_text_digits(hash: u64)
    ensures
        id_text(hash).len() == 16,
        forall|i: int|
            0 <= i < 16 ==> #[trigger] id_text(hash)[i] as int == digit_code(
                ((hash as nat / pow16((15 - i) as nat)) % 16) as int,
            ),
{
    lemma_hex_text_digits(hash as nat, 16);
}

/// Appending a digit to a hexadecimal numeral multiplies its value by 16 and
/// adds the digit's value, which is its ASCII code less that of `0` or of
/// `a` plus 10.
pub proof fn lemma_hex_number_push(s: Seq<char>, c: char)
    requires
        is_hex_lower(c),
    ensures
        hex_number(s.push(c)) == hex_number(s) * 16 + (if c as int <= 57 {
            c as int - 48
        } else {
            c as int - 87
        }),
{
    assert(s.push(c).drop_last() =~= s);
}

/// Subscription id texts are 16 lowercase hexadecimal digits.
pub proof fn lemma_id_text_well_formed(hash: u64)
    ensures
        id_text(hash).len() == 16,
        forall|i: int| 0 <= i < 16 ==> is_hex_lower(#[trigger] id_text(hash)[i]),
{
    lemma_hex_text_shape(hash as nat, 16);
}

/// Reading a subscription id text gives back the hash it was formatted from.
pub proof fn lemma_parse_id_text_inverts(hash: u64)
    ensures
        parse_id_text(id_text(hash)) == Some(hash),
{
    lemma_hex_text_shape(hash as nat, 16);
    lemma_number_of_text(hash as nat, 16);
    lemma_pow16_16();
}

/// A text that reads as a hash is exactly the id text of that hash.
pub proof fn lemma_parse_id_text_exact(s: Seq<char>)
    requires
        parse_id_text(s) is Some,
    ensures
        id_text(parse_id_text(s)->0) == s,
{
    lemma_text_of_number(s);
    lemma_pow16_16();
}

/// Distinct hashes give distinct subscription id texts.
pub proof fn lemma_id_text_injective(a: u64, b: u64)
    requires
        id_text(a) == id_text(b),
    ensures
        a == b,
{
    lemma_parse_id_text_inverts(a);
    lemma_parse_id_text_inverts(b);
}

/// The value of `c` as a lowercase hexadecimal digit, if it is one.
fn hex_char_value(c: char) -> (d: Option<u64>)
    ensures
        d is Some <==> is_hex_lower(c),
        d matches Some(v) ==> v == hex_value(c),
{
    if '0' <= c && c <= '9' {
        Some((c as u32 - '0' as u32) as u64)
    } else if 'a' <= c && c <= 'f' {
        Some((c as u32 - 'a' as u32 + 10) as u64)
    } else {
        None
    }
}

/// Reads a subscription id text back into the filter hash it was formatted
/// from; `None` unless the text is 16 lowercase hexadecimal digits.
pub fn parse_subscription_id(text: &str) -> (hash: Option<u64>)
    ensures
        hash == parse_id_text(text@),
{
    let n = text.unicode_len();
    if n != 16 {
        return None;
    }
    let mut v: u64 = 0;
    let mut i: usize = 0;
    while i < 16
        invariant
            n == 16,
            text@.len() == 16,
            0 <= i <= 16,
            v == hex_number(text@.subrange(0, i as int)),
            v < pow16(i as nat),
            forall|j: int| 0 <= j < i ==> is_hex_lower(#[trigger] text@[j]),
        decreases 16 - i,
    {
        let c = text.get_char(i);
        match hex_char_value(c) {
            None => {
                return None;
            },
            Some(d) => {
                proof {
                    lemma_pow16_monotonic((i + 1) as nat, 16);
                    lemma_pow16_16();
                    assert(text@.subrange(0, i + 1).drop_last() =~= text@.subrange(0, i as int));
                }
                v = v * 16 + d;
                i = i + 1;
            },
        }
    }
    assert(text@.subrange(0, 16) =~= text@);
    Some(v)
}

/// `nostr::Filter`, held as an opaque value.
#[verifier::external_type_specification]
#[verifier::external_body]
pub struct ExFilter(Filter);

/// `nostr::SubscriptionId`, held as an opaque value.
#[verifier::external_type_specification]
#[verifier::external_body]
pub struct ExSubscriptionId(SubscriptionId);

/// The JSON text of a filter, as `JsonUtil::as_json` serialises it.
pub uninterp spec fn filter_json(filter: Filter) -> Seq<char>;

/// The text that a subscription id holds.
pub uninterp spec fn subscription_id_text(id: SubscriptionId) -> Seq<char>;

/// Calls `nostr::JsonUtil::as_json` on a filter. The serialisation is
/// `serde_json::to_string` of the filter, whose fields are options, sorted
/// sets and a sorted map with string keys, so it cannot fail and depends on
/// the filter alone; the contract names that text `filter_json`.
#[verifier::external_body]
fn filter_as_json(filter: &Filter) -> (json: String)
    ensures
        json@ == filter_json(*filter),
{
    filter.as_json()
}

/// Calls `nostr::SubscriptionId::new`, which wraps the given text unchanged.
#[verifier::external_body]
fn new_subscription_id(text: String) -> (id: SubscriptionId)
    ensures
        subscription_id_text(id) == text@,
{
    SubscriptionId::new(text)
}

/// Calls `nostr::SubscriptionId::as_str`, which hands back the wrapped text.
#[verifier::external_body]
pub(crate) fn subscription_id_as_str(id: &SubscriptionId) -> (text: &str)
    ensures
        text@ == subscription_id_text(*id),
{
    id.as_str()
}

/// The JSON texts of a sequence of filters.
pub open spec fn filter_jsons(filters: Seq<Filter>) -> Seq<Seq<char>> {
    filters.map_values(|f: Filter| filter_json(f))
}

/// What hashing the texts `jsons` one after the other writes into a
/// `DefaultHasher`: the UTF-8 bytes of each text followed by the byte `0xff`
/// (the `Hash` implementation of `str`).
pub open spec fn hash_writes(jsons: Seq<Seq<char>>) -> Seq<Seq<u8>>
    decreases jsons.len(),
{
    if jsons.len() == 0 {
        Seq::empty()
    } else {
        hash_writes(jsons.drop_last()).push(encode_utf8(jsons.last())).push(seq![0xffu8])
    }
}

/// The hash of a sequence of filter JSON texts: a fresh `DefaultHasher`
/// fed each text in turn.
pub open spec fn texts_hash(jsons: Seq<Seq<char>>) -> u64 {
    DefaultHasher::spec_finish(hash_writes(jsons))
}

/// The hash that identifies a subscription to `filters`.
pub open spec fn filters_hash(filters: Seq<Filter>) -> u64 {
    texts_hash(filter_jsons(filters))
}

/// Hashes filter JSON texts one after the other with a fresh `DefaultHasher`.
pub fn hash_filter_texts(jsons: &Vec<String>) -> (hash: u64)
    ensures
        hash == texts_hash(jsons@.map_values(|j: String| j@)),
{
    let ghost texts = jsons@.map_values(|j: String| j@);
    let mut hasher = DefaultHasher::new();
    let separator: [u8; 1] = [0xffu8];
    let mut i: usize = 0;
    while i < jsons.len()
        invariant
            0 <= i <= jsons.len(),
            texts == jsons@.map_values(|j: String| j@),
            separator@ == seq![0xffu8],
            hasher@ == hash_writes(texts.subrange(0, i as int)),
        decreases jsons.len() - i,
    {
        let json: &str = jsons[i].as_str();
        hasher.write(json.as_bytes());
        hasher.write(separator.as_slice());
        proof {
            assert(texts.subrange(0, i + 1).drop_last() =~= texts.subrange(0, i as int));
        }
        i = i + 1;
    }
    assert(texts.subrange(0, jsons.len() as int) =~= texts);
    hasher.finish()
}

/// The JSON texts of the filters, in order.
fn filters_as_json(filters: &Vec<Filter>) -> (jsons: Vec<String>)
    ensures
        jsons@.map_values(|j: String| j@) == filter_jsons(filters@),
{
    let mut jsons: Vec<String> = Vec::new();
    let mut i: usize = 0;
    while i < filters.len()
        invariant
            0 <= i <= filters.len(),
            jsons@.len() == i,
            forall|k: int| 0 <= k < i ==> (#[trigger] jsons@[k])@ == filter_json(filters@[k]),
        decreases filters.len() - i,
    {
        let json = filter_as_json(&filters[i]);
        jsons.push(json);
        i = i + 1;
    }
    assert(jsons@.map_values(|j: String| j@) =~= filter_jsons(filters@));
    jsons
}

/// The hash that keys a subscription to `filters`.
pub fn subscription_hash(filters: &Vec<Filter>) -> (hash: u64)
    ensures
        hash == filters_hash(filters@),
{
    let jsons = filters_as_json(filters);
    hash_filter_texts(&jsons)
}

/// Filters with the same JSON texts get the same subscription id.
pub proof fn lemma_same_filters_same_id(filters: Seq<Filter>, other: Seq<Filter>)
    requires
        filter_jsons(filters) == filter_jsons(other),
    ensures
        id_text(filters_hash(filters)) == id_text(filters_hash(other)),
{
}

/// The JSON texts of a list of filters are the JSON texts of each of its
/// filters, in order.
pub proof fn lemma_filter_jsons_each(filters: Seq<Filter>)
    ensures
        filter_jsons(filters).len() == filters.len(),
        forall|i: int|
            0 <= i < filters.len() ==> #[trigger] filter_jsons(filters)[i] == filter_json(
                filters[i],
            ),
{
}

/// What hashing a list of texts writes into the hasher: for each text in
/// order, its UTF-8 bytes and then the single byte `0xff`, all into one
/// hasher started once.
pub proof fn lemma_hash_writes_each(jsons: Seq<Seq<char>>)
    ensures
        hash_writes(jsons).len() == 2 * jsons.len(),
        forall|i: int|
            0 <= i < jsons.len() ==> #[trigger] hash_writes(jsons)[2 * i] == encode_utf8(jsons[i])
                && hash_writes(jsons)[2 * i + 1] == seq![0xffu8],
    decreases jsons.len(),
{
    if jsons.len() > 0 {
        let p = jsons.drop_last();
        lemma_hash_writes_each(p);
        assert forall|i: int| 0 <= i < jsons.len() implies #[trigger] hash_writes(jsons)[2 * i]
            == encode_utf8(jsons[i]) && hash_writes(jsons)[2 * i + 1] == seq![0xffu8] by {
            if i < jsons.len() - 1 {
                assert(hash_writes(p)[2 * i] == encode_utf8(p[i]));
            }
        }
    }
}

/// Hashing one more text continues the same hasher: its bytes and `0xff`
/// are written after what the earlier texts wrote.
pub proof fn lemma_hash_writes_push(jsons: Seq<Seq<char>>, json: Seq<char>)
    ensures
        hash_writes(Seq::<Seq<char>>::empty()) == Seq::<Seq<u8>>::empty(),
        hash_writes(jsons.push(json)) == hash_writes(jsons) + seq![encode_utf8(json), seq![0xffu8]],
{
    assert(jsons.push(json).drop_last() =~= jsons);
    assert(hash_writes(jsons.push(json)) =~= hash_writes(jsons) + seq![encode_utf8(json), seq![0xffu8]]);
}

/// Derives the subscription id of a set of filters.
pub trait ToSubscriptionId {
    fn to_subscription_id(&self) -> SubscriptionId;
}

impl ToSubscriptionId for Vec<Filter> {
    /// The id is the hash of the filters' JSON texts, written as 16
    /// lowercase hexadecimal digits.
    fn to_subscription_id(&self) -> (id: SubscriptionId)
        ensures
            subscription_id_text(id) == id_text(filters_hash(self@)),
    {
        let hash = subscription_hash(self);
        new_subscription_id(format_subscription_id(hash))
    }
}

} // verus!
