//! The data types of the Minecraft protocol: variable-length integers, strings, unsigned shorts.
use vstd::prelude::*;
use vstd::utf8::{decode_utf8, encode_utf8, valid_utf8};

use crate::text::{signed, text_from_utf8, to_signed, to_unsigned, unsigned};

verus! {

/// The most bytes a variable-length integer takes.
pub const VAR_INT_MAX_BYTES: usize = 5;

/// The bytes of `n` in groups of seven bits, the lowest group first. The top bit of a byte says
/// that another byte follows.
pub open spec fn var_bytes(n: nat) -> Seq<u8>
    decreases n,
{
    if n < 128 {
        seq![n as u8]
    } else {
        seq![(n % 128 + 128) as u8] + var_bytes(n / 128)
    }
}

/// The encoding of `value` as a variable-length integer.
pub open spec fn var_int_bytes(value: i32) -> Seq<u8> {
    var_bytes(unsigned(value))
}

/// How many bytes at the start of `s` say that another byte follows.
pub open spec fn continuations(s: Seq<u8>) -> nat
    decreases s.len(),
{
    if s.len() > 0 && s[0] >= 128 {
        1 + continuations(s.drop_first())
    } else {
        0
    }
}

/// The number that the seven-bit groups of `s` make up, the lowest group first.
pub open spec fn groups(s: Seq<u8>) -> nat
    decreases s.len(),
{
    if s.len() == 0 {
        0
    } else {
        (s[0] % 128) as nat + 128 * groups(s.drop_first())
    }
}

/// What the bytes at the start of a stream hold, read as a variable-length integer.
#[derive(Clone, Copy, Debug, PartialEq, Eq, Structural)]
pub enum VarIntScan {
    /// The integer is not complete: another byte is needed.
    Incomplete,
    /// The integer goes on after its last possible byte.
    Overlong,
    /// The integer `value`, in the first `used` bytes.
    Value { value: i32, used: usize },
}

/// What the start of `s` holds, read as a variable-length integer. The bits of the last byte
/// that do not fit into 32 bits are dropped.
pub open spec fn var_int_scan(s: Seq<u8>) -> VarIntScan {
    let n = continuations(s);
    if n >= VAR_INT_MAX_BYTES {
        VarIntScan::Overlong
    } else if n < s.len() {
        VarIntScan::Value {
            value: signed(groups(s.take(n as int + 1)) as int),
            used: (n + 1) as usize,
        }
    } else {
        VarIntScan::Incomplete
    }
}

/// Whether `bytes` are an encoding of `value`, not necessarily the shortest one, and nothing more.
pub open spec fn encodes_var_int(bytes: Seq<u8>, value: i32) -> bool {
    &&& bytes.len() <= VAR_INT_MAX_BYTES
    &&& var_int_scan(bytes) == (VarIntScan::Value { value, used: bytes.len() as usize })
}

proof fn lemma_continuations_at(s: Seq<u8>, n: nat)
    requires
        n <= s.len(),
        forall|i: int| 0 <= i < n ==> s[i] >= 128,
    ensures
        continuations(s) >= n,
        n < s.len() && s[n as int] < 128 ==> continuations(s) == n,
        n == s.len() ==> continuations(s) == n,
    decreases n,
{
    if n > 0 {
        let tail = s.drop_first();
        assert forall|i: int| 0 <= i < n - 1 implies tail[i] >= 128 by {
            assert(tail[i] == s[i + 1]);
        }
        lemma_continuations_at(tail, (n - 1) as nat);
    }
}

proof fn lemma_continuations_bytes(s: Seq<u8>)
    ensures
        continuations(s) <= s.len(),
        forall|i: int| 0 <= i < continuations(s) ==> s[i] >= 128,
        continuations(s) < s.len() ==> s[continuations(s) as int] < 128,
    decreases s.len(),
{
    if s.len() > 0 && s[0] >= 128 {
        let tail = s.drop_first();
        lemma_continuations_bytes(tail);
        assert forall|i: int| 0 <= i < continuations(s) implies s[i] >= 128 by {
            if i > 0 {
                assert(s[i] == tail[i - 1]);
            }
        }
    }
}

proof fn lemma_groups_push(s: Seq<u8>, b: u8, weight: nat)
    requires
        weight == vstd::arithmetic::power::pow(128, s.len()),
    ensures
        groups(s.push(b)) == groups(s) + (b % 128) as nat * weight,
    decreases s.len(),
{
    reveal(vstd::arithmetic::power::pow);
    if s.len() == 0 {
        assert(s.push(b).drop_first() =~= s);
        assert(groups(s.push(b)) == (b % 128) as nat + 128 * groups(s));
    } else {
        let tail = s.drop_first();
        let smaller = vstd::arithmetic::power::pow(128, tail.len()) as nat;
        vstd::arithmetic::power::lemma_pow_positive(128, tail.len());
        assert(s.push(b).drop_first() =~= tail.push(b));
        assert(s.push(b)[0] == s[0]);
        lemma_groups_push(tail, b, smaller);
        let d = (b % 128) as nat;
        assert(weight == 128 * smaller);
        assert(128 * (d * smaller) == d * (128 * smaller)) by (nonlinear_arith);
    }
}

/// Reads the start of `s` as a variable-length integer.
pub fn scan_var_int(s: &[u8]) -> (scan: VarIntScan)
    ensures
        scan == var_int_scan(s@),
{
    let mut total: u64 = 0;
    let mut weight: u64 = 1;
    let mut i: usize = 0;
    proof {
        reveal(vstd::arithmetic::power::pow);
        assert(s@.take(0) =~= seq![]);
    }
    while i < s.len() && i < VAR_INT_MAX_BYTES
        invariant
            i <= s@.len(),
            i <= VAR_INT_MAX_BYTES,
            forall|j: int| 0 <= j < i ==> s@[j] >= 128,
            total == groups(s@.take(i as int)),
            weight == vstd::arithmetic::power::pow(128, i as nat),
            i == 0 ==> weight == 1,
            i == 1 ==> weight == 0x80,
            i == 2 ==> weight == 0x4000,
            i == 3 ==> weight == 0x20_0000,
            i == 4 ==> weight == 0x1000_0000,
            i == 5 ==> weight == 0x8_0000_0000,
            total < weight,
        decreases s@.len() - i,
    {
        let byte = s[i];
        proof {
            reveal(vstd::arithmetic::power::pow);
            lemma_groups_push(s@.take(i as int), byte, weight as nat);
            assert(s@.take(i as int).push(byte) =~= s@.take(i + 1));
            assert((byte % 128) as nat * weight <= 127 * weight) by (nonlinear_arith)
                requires
                    byte % 128 <= 127,
                    weight >= 0,
            ;
            assert(vstd::arithmetic::power::pow(128, (i + 1) as nat) == 128 * weight);
        }
        total = total + (byte % 128) as u64 * weight;
        if byte < 128 {
            proof {
                lemma_continuations_at(s@, i as nat);
            }
            return VarIntScan::Value { value: to_signed(total), used: i + 1 };
        }
        weight = weight * 128;
        i = i + 1;
    }
    proof {
        lemma_continuations_at(s@, i as nat);
    }
    if i < VAR_INT_MAX_BYTES {
        VarIntScan::Incomplete
    } else {
        VarIntScan::Overlong
    }
}

/// A complete integer takes one to five bytes, all of them given; an incomplete one has been given
/// fewer than five, and one that is too long at least five.
pub proof fn lemma_scan_bounds(s: Seq<u8>)
    ensures
        var_int_scan(s) matches VarIntScan::Value { value, used } ==> 1 <= used
            <= VAR_INT_MAX_BYTES && used <= s.len(),
        var_int_scan(s) is Incomplete ==> s.len() < VAR_INT_MAX_BYTES,
        var_int_scan(s) is Overlong ==> s.len() >= VAR_INT_MAX_BYTES,
{
    lemma_continuations_bytes(s);
}

/// What has been read stays so, whatever follows in the stream.
pub proof fn lemma_scan_prefix(s: Seq<u8>, rest: Seq<u8>)
    ensures
        var_int_scan(s) !is Incomplete ==> var_int_scan(s + rest) == var_int_scan(s),
{
    let n = continuations(s);
    lemma_continuations_bytes(s);
    if n < s.len() {
        lemma_continuations_at(s + rest, n);
        if n < VAR_INT_MAX_BYTES {
            assert((s + rest).take(n as int + 1) =~= s.take(n as int + 1));
        }
    } else {
        assert forall|i: int| 0 <= i < n implies (s + rest)[i] >= 128 by {
            assert((s + rest)[i] == s[i]);
        }
        lemma_continuations_at(s + rest, n);
    }
}

/// Only the bytes of the integer itself decide what is read, and that it is too long shows in its
/// first five.
pub proof fn lemma_scan_own_bytes(s: Seq<u8>)
    ensures
        var_int_scan(s) matches VarIntScan::Value { value, used } ==> var_int_scan(
            s.take(used as int),
        ) == var_int_scan(s),
        var_int_scan(s) is Overlong ==> var_int_scan(s.take(VAR_INT_MAX_BYTES as int)) is Overlong,
{
    let n = continuations(s);
    lemma_continuations_bytes(s);
    if n >= VAR_INT_MAX_BYTES {
        let own = s.take(VAR_INT_MAX_BYTES as int);
        assert forall|i: int| 0 <= i < VAR_INT_MAX_BYTES implies own[i] >= 128 by {
            assert(own[i] == s[i]);
        }
        lemma_continuations_at(own, VAR_INT_MAX_BYTES as nat);
    }
    if n < VAR_INT_MAX_BYTES && n < s.len() {
        let own = s.take(n as int + 1);
        assert forall|i: int| 0 <= i < n implies own[i] >= 128 by {
            assert(own[i] == s[i]);
        }
        lemma_continuations_at(own, n);
        assert(own.take(n as int + 1) =~= own);
    }
}

proof fn lemma_var_bytes(n: nat)
    ensures
        var_bytes(n).len() >= 1,
        forall|i: int| 0 <= i < var_bytes(n).len() - 1 ==> var_bytes(n)[i] >= 128,
        var_bytes(n).last() < 128,
        groups(var_bytes(n)) == n,
    decreases n,
{
    if n < 128 {
        assert(var_bytes(n).drop_first() =~= seq![]);
        assert(groups(seq![]) == 0);
    } else {
        lemma_var_bytes(n / 128);
        let tail = var_bytes(n / 128);
        assert(var_bytes(n).drop_first() =~= tail);
        assert forall|i: int| 0 <= i < var_bytes(n).len() - 1 implies var_bytes(n)[i] >= 128 by {
            if i > 0 {
                assert(var_bytes(n)[i] == tail[i - 1]);
            }
        }
        assert(var_bytes(n).last() == tail.last());
    }
}

proof fn lemma_var_bytes_len(n: nat)
    ensures
        n < 0x80 <==> var_bytes(n).len() <= 1,
        n < 0x4000 <==> var_bytes(n).len() <= 2,
        n < 0x20_0000 <==> var_bytes(n).len() <= 3,
        n < 0x1000_0000 <==> var_bytes(n).len() <= 4,
        n < 0x8_0000_0000 <==> var_bytes(n).len() <= 5,
    decreases n,
{
    if n >= 128 {
        lemma_var_bytes_len(n / 128);
        lemma_var_bytes(n / 128);
    }
}

/// Reading undoes writing: the encoding of an integer, whatever follows it, is read as that
/// integer, and no byte of what follows is used. The encoding takes one to five bytes.
pub proof fn law_var_int_round_trip(value: i32, rest: Seq<u8>)
    ensures
        var_int_scan(var_int_bytes(value) + rest) == (VarIntScan::Value {
            value,
            used: var_int_bytes(value).len() as usize,
        }),
        1 <= var_int_bytes(value).len() <= VAR_INT_MAX_BYTES,
{
    let n = unsigned(value);
    let s = var_bytes(n);
    lemma_var_bytes(n);
    lemma_var_bytes_len(n);
    let last = (s.len() - 1) as nat;
    assert forall|i: int| 0 <= i < last implies (s + rest)[i] >= 128 by {
        assert((s + rest)[i] == s[i]);
    }
    assert((s + rest)[last as int] == s.last());
    lemma_continuations_at(s + rest, last);
    assert((s + rest).take(last as int + 1) =~= s);
    crate::text::lemma_signed_unsigned(value);
}

/// Different integers have different encodings.
pub proof fn law_var_int_injective(a: i32, b: i32)
    requires
        var_int_bytes(a) == var_int_bytes(b),
    ensures
        a == b,
{
    law_var_int_round_trip(a, seq![]);
    law_var_int_round_trip(b, seq![]);
}

/// No encoding of an integer is shorter than the one that is written.
pub proof fn law_var_int_shortest(s: Seq<u8>)
    ensures
        var_int_scan(s) matches VarIntScan::Value { value, used } ==> var_int_bytes(value).len()
            <= used,
{
    lemma_scan_bounds(s);
    if let VarIntScan::Value { value, used } = var_int_scan(s) {
        let own = s.take(used as int);
        lemma_groups_bound(own);
        lemma_var_bytes_len(unsigned(value));
        crate::text::lemma_signed_unsigned(value);
    }
}

proof fn lemma_groups_bound(s: Seq<u8>)
    ensures
        s.len() <= 1 ==> groups(s) < 0x80,
        s.len() <= 2 ==> groups(s) < 0x4000,
        s.len() <= 3 ==> groups(s) < 0x20_0000,
        s.len() <= 4 ==> groups(s) < 0x1000_0000,
    decreases s.len(),
{
    if s.len() > 0 {
        lemma_groups_bound(s.drop_first());
    }
}

/// Takes the first `n` bytes out of `reader`.
fn take_front(reader: &mut Vec<u8>, n: usize) -> (front: Vec<u8>)
    requires
        n <= old(reader)@.len(),
    ensures
        front@ == old(reader)@.take(n as int),
        final(reader)@ == old(reader)@.skip(n as int),
{
    let mut front = reader.split_off(n);
    std::mem::swap(reader, &mut front);
    front
}

/// A variable-length integer, with the bytes that hold it.
#[derive(Debug)]
pub struct VarInt {
    value: i32,
    data: Vec<u8>,
}

impl VarInt {
    /// The integer.
    pub closed spec fn int_value(self) -> i32 {
        self.value
    }

    /// The bytes that hold it.
    pub closed spec fn bytes(self) -> Seq<u8> {
        self.data@
    }

    #[verifier::type_invariant]
    spec fn well_formed(self) -> bool {
        encodes_var_int(self.data@, self.value)
    }

    /// The integer `num` in its shortest encoding.
    pub fn from(num: i32) -> (var_int: Option<VarInt>)
        ensures
            var_int matches Some(v) && v.int_value() == num && v.bytes() == var_int_bytes(num),
    {
        let mut data: Vec<u8> = Vec::new();
        let mut n: u32 = to_unsigned(num);
        while n >= 128
            invariant
                data@ + var_bytes(n as nat) == var_int_bytes(num),
            decreases n,
        {
            let ghost before = data@;
            data.push((n % 128 + 128) as u8);
            assert(data@ + var_bytes((n / 128) as nat) =~= before + var_bytes(n as nat));
            n = n / 128;
        }
        data.push(n as u8);
        assert(data@ =~= var_int_bytes(num));
        proof {
            law_var_int_round_trip(num, seq![]);
            assert(data@ + seq![] =~= data@);
        }
        Some(VarInt { value: num, data })
    }

    /// The integer `value`, as it was read from `data`.
    pub(crate) fn held(value: i32, data: Vec<u8>) -> (var_int: VarInt)
        requires
            encodes_var_int(data@, value),
        ensures
            var_int.int_value() == value,
            var_int.bytes() == data@,
    {
        VarInt { value, data }
    }

    /// The integer.
    pub fn get_int(&self) -> (value: i32)
        ensures
            value == self.int_value(),
    {
        self.value
    }

    /// The bytes that hold the integer: as they were read, or the shortest ones.
    pub fn get_data(&self) -> (data: Vec<u8>)
        ensures
            data@ == self.bytes(),
            encodes_var_int(data@, self.int_value()),
            1 <= data@.len() <= VAR_INT_MAX_BYTES,
    {
        proof {
            use_type_invariant(self);
            lemma_scan_bounds(self.data@);
        }
        let data = self.data.clone();
        assert(data@ =~= self.data@);
        data
    }

    /// Takes an integer from the front of `reader`, which is left alone where it holds none.
    pub fn parse(reader: &mut Vec<u8>) -> (var_int: Option<VarInt>)
        ensures
            match var_int_scan(old(reader)@) {
                VarIntScan::Value { value, used } => {
                    &&& var_int matches Some(v)
                    &&& v.int_value() == value
                    &&& v.bytes() == old(reader)@.take(used as int)
                    &&& final(reader)@ == old(reader)@.skip(used as int)
                },
                _ => var_int is None && final(reader)@ == old(reader)@,
            },
    {
        match scan_var_int(reader.as_slice()) {
            VarIntScan::Value { value, used } => {
                proof {
                    lemma_scan_bounds(reader@);
                    lemma_scan_own_bytes(reader@);
                }
                let data = take_front(reader, used);
                Some(VarInt { value, data })
            },
            _ => None,
        }
    }
}

/// Whether the length of the encoding of `text` can be written down.
pub open spec fn var_string_fits(text: Seq<char>) -> bool {
    encode_utf8(text).len() <= i32::MAX
}

/// The encoding of `text`: the number of its bytes, then its bytes.
pub open spec fn var_string_bytes(text: Seq<char>) -> Seq<u8> {
    var_int_bytes(encode_utf8(text).len() as i32) + encode_utf8(text)
}

/// The text at the start of `s`, and the number of bytes that it takes; nothing where the length,
/// the bytes or their encoding are wrong.
pub open spec fn var_string_scan(s: Seq<u8>) -> Option<(Seq<char>, nat)> {
    match var_int_scan(s) {
        VarIntScan::Value { value, used } => {
            let end = used + value;
            if 0 <= value && end <= s.len() && valid_utf8(s.subrange(used as int, end)) {
                Some((decode_utf8(s.subrange(used as int, end)), end as nat))
            } else {
                None
            }
        },
        _ => None,
    }
}

/// Reading undoes writing: the encoding of a text, whatever follows it, is read as that text, and
/// no byte of what follows is used.
pub proof fn law_var_string_round_trip(text: Seq<char>, rest: Seq<u8>)
    requires
        var_string_fits(text),
    ensures
        var_string_scan(var_string_bytes(text) + rest) == Some(
            (text, var_string_bytes(text).len()),
        ),
{
    let body = encode_utf8(text);
    let head = var_int_bytes(body.len() as i32);
    law_var_int_round_trip(body.len() as i32, body + rest);
    let s = var_string_bytes(text) + rest;
    assert(s =~= head + (body + rest));
    assert(s.subrange(head.len() as int, (head.len() + body.len()) as int) =~= body);
    vstd::utf8::encode_utf8_valid_utf8(text);
    vstd::utf8::encode_utf8_decode_utf8(text);
}

/// A text, encoded with its length.
#[derive(Debug)]
pub struct VarString {
    pub value: String,
}

impl VarString {
    /// The text `value`.
    pub fn from(value: String) -> (var_string: VarString)
        ensures
            var_string.value@ == value@,
    {
        VarString { value }
    }

    /// The text.
    pub fn get_value(&self) -> (value: String)
        ensures
            value@ == self.value@,
    {
        self.value.clone()
    }

    /// The encoding of the text, or nothing where its length cannot be written down.
    pub fn get_data(&self) -> (data: Option<Vec<u8>>)
        ensures
            data is Some <==> var_string_fits(self.value@),
            data matches Some(d) ==> d@ == var_string_bytes(self.value@),
    {
        let mut body = self.value.as_str().as_bytes_vec();
        if body.len() > i32::MAX as usize {
            return None;
        }
        let mut data = VarInt::from(body.len() as i32)?.get_data();
        data.append(&mut body);
        Some(data)
    }

    /// As `get_data`, for a text that is not needed any more.
    pub fn move_data(self) -> (data: Option<Vec<u8>>)
        ensures
            data is Some <==> var_string_fits(self.value@),
            data matches Some(d) ==> d@ == var_string_bytes(self.value@),
    {
        self.get_data()
    }

    /// Takes a text from the front of `reader`, which is left alone where it holds none.
    pub fn parse(reader: &mut Vec<u8>) -> (var_string: Option<VarString>)
        ensures
            match var_string_scan(old(reader)@) {
                Some((text, used)) => {
                    &&& var_string matches Some(v)
                    &&& v.value@ == text
                    &&& final(reader)@ == old(reader)@.skip(used as int)
                },
                None => var_string is None && final(reader)@ == old(reader)@,
            },
    {
        match scan_var_int(reader.as_slice()) {
            VarIntScan::Value { value, used } => {
                proof {
                    lemma_scan_bounds(reader@);
                }
                if value < 0 || (value as usize) > reader.len() - used {
                    return None;
                }
                let end: usize = used + value as usize;
                let body = vstd::slice::slice_to_vec(
                    vstd::slice::slice_subrange(reader.as_slice(), used, end),
                );
                match text_from_utf8(body) {
                    Some(text) => {
                        let _read = take_front(reader, end);
                        Some(VarString { value: text })
                    },
                    None => None,
                }
            },
            _ => None,
        }
    }
}

/// The encoding of `value`: the high byte, then the low byte.
pub open spec fn u_short_bytes(value: u16) -> Seq<u8> {
    seq![(value / 256) as u8, (value % 256) as u8]
}

/// The number that the first two bytes of `s` make up.
pub open spec fn u_short_value(s: Seq<u8>) -> u16 {
    (s[0] * 256 + s[1]) as u16
}

/// Reading undoes writing: the two bytes of a number, whatever follows them, are read as that
/// number.
pub proof fn law_u_short_round_trip(value: u16, rest: Seq<u8>)
    ensures
        u_short_value(u_short_bytes(value) + rest) == value,
        u_short_bytes(value).len() == 2,
{
}

/// An unsigned number of sixteen bits.
#[derive(Clone, Copy, Debug)]
pub struct UShort {
    pub value: u16,
}

impl UShort {
    /// The number `value`.
    pub fn from(value: u16) -> (short: UShort)
        ensures
            short.value == value,
    {
        UShort { value }
    }

    /// The number.
    pub fn get_value(&self) -> (value: u16)
        ensures
            value == self.value,
    {
        self.value
    }

    /// The encoding of the number.
    pub fn get_data(&self) -> (data: Vec<u8>)
        ensures
            data@ == u_short_bytes(self.value),
    {
        let mut data: Vec<u8> = Vec::new();
        data.push((self.value / 256) as u8);
        data.push((self.value % 256) as u8);
        assert(data@ =~= u_short_bytes(self.value));
        data
    }

    /// Takes a number from the front of `reader`, which is left alone where it holds too few bytes.
    pub fn parse(reader: &mut Vec<u8>) -> (short: Option<UShort>)
        ensures
            short is Some <==> old(reader)@.len() >= 2,
            short matches Some(v) ==> v.value == u_short_value(old(reader)@) && final(reader)@
                == old(reader)@.skip(2),
            short is None ==> final(reader)@ == old(reader)@,
    {
        if reader.len() < 2 {
            return None;
        }
        let value: u16 = reader[0] as u16 * 256 + reader[1] as u16;
        let _read = take_front(reader, 2);
        Some(UShort { value })
    }
}

/// The bytes that are written for an integer: groups of seven bits, the lowest first, of the number
/// itself, or of what is 2 to the 32 more where it is negative; and 128 more in each byte but the
/// last.
pub proof fn law_var_int_layout(value: i32)
    ensures
        ({
            let n: int = if value < 0 {
                value + 0x1_0000_0000
            } else {
                value as int
            };
            let bytes = var_int_bytes(value);
            &&& n < 0x80 ==> bytes == seq![n as u8]
            &&& 0x80 <= n < 0x4000 ==> bytes == seq![(n % 128 + 128) as u8, (n / 128) as u8]
            &&& 0x4000 <= n < 0x20_0000 ==> bytes == seq![
                (n % 128 + 128) as u8,
                (n / 128 % 128 + 128) as u8,
                (n / 128 / 128) as u8,
            ]
            &&& 0x20_0000 <= n < 0x1000_0000 ==> bytes == seq![
                (n % 128 + 128) as u8,
                (n / 128 % 128 + 128) as u8,
                (n / 128 / 128 % 128 + 128) as u8,
                (n / 128 / 128 / 128) as u8,
            ]
            &&& 0x1000_0000 <= n ==> bytes == seq![
                (n % 128 + 128) as u8,
                (n / 128 % 128 + 128) as u8,
                (n / 128 / 128 % 128 + 128) as u8,
                (n / 128 / 128 / 128 % 128 + 128) as u8,
                (n / 128 / 128 / 128 / 128) as u8,
            ]
        }),
{
    reveal_with_fuel(var_bytes, 6);
}

/// How bytes are read as an integer: each byte below 128 is the last one, and the lower seven bits
/// of the bytes make up the integer, but for a multiple of 2 to the 32. An integer that does not
/// end within five bytes is too long, and one whose last byte has not come is not complete.
#[verifier::rlimit(40)]
pub proof fn law_var_int_reading(s: Seq<u8>)
    ensures
        s.len() >= 1 && s[0] < 128 ==> var_int_scan(s) == (VarIntScan::Value {
            value: s[0] as i32,
            used: 1,
        }),
        s.len() >= 2 && s[0] >= 128 && s[1] < 128 ==> var_int_scan(s) == (VarIntScan::Value {
            value: (s[0] % 128 + 128 * s[1]) as i32,
            used: 2,
        }),
        s.len() >= 3 && s[0] >= 128 && s[1] >= 128 && s[2] < 128 ==> var_int_scan(s) == (
        VarIntScan::Value {
            value: (s[0] % 128 + 128 * (s[1] % 128) + 16384 * s[2]) as i32,
            used: 3,
        }),
        s.len() >= 4 && s[0] >= 128 && s[1] >= 128 && s[2] >= 128 && s[3] < 128 ==> var_int_scan(s)
            == (VarIntScan::Value {
            value: (s[0] % 128 + 128 * (s[1] % 128) + 16384 * (s[2] % 128) + 2097152
                * s[3]) as i32,
            used: 4,
        }),
        s.len() >= 5 && s[0] >= 128 && s[1] >= 128 && s[2] >= 128 && s[3] >= 128 && s[4] < 128 ==> (
        var_int_scan(s) matches VarIntScan::Value { value, used } && used == 5 && (value - (s[0]
            % 128 + 128 * (s[1] % 128) + 16384 * (s[2] % 128) + 2097152 * (s[3] % 128) + 268435456
            * s[4])) % 0x1_0000_0000 == 0),
        s.len() >= 5 && s[0] >= 128 && s[1] >= 128 && s[2] >= 128 && s[3] >= 128 && s[4] >= 128
            ==> var_int_scan(s) is Overlong,
        s.len() < 5 && (forall|i: int| 0 <= i < s.len() ==> s[i] >= 128) ==> var_int_scan(
            s,
        ) is Incomplete,
{
    lemma_continuations_bytes(s);
    let n = continuations(s);
    if n < s.len() && n < VAR_INT_MAX_BYTES {
        let own = s.take(n as int + 1);
        lemma_groups_of_five(own);
        assert(own[n as int] == s[n as int]);
        assert(forall|i: int| 0 <= i <= n ==> own[i] == s[i]);
        if n < 4 {
            assert(groups(own) < 0x1000_0000);
            assert(signed(groups(own) as int) == groups(own));
        } else {
            crate::text::law_two_readings(0, groups(own) as int);
        }
    }
    if s.len() < 5 && (forall|i: int| 0 <= i < s.len() ==> s[i] >= 128) {
        lemma_continuations_at(s, s.len());
    }
}

proof fn lemma_groups_of_five(s: Seq<u8>)
    requires
        1 <= s.len() <= 5,
    ensures
        s.len() == 1 ==> groups(s) == s[0] % 128,
        s.len() == 2 ==> groups(s) == s[0] % 128 + 128 * (s[1] % 128),
        s.len() == 3 ==> groups(s) == s[0] % 128 + 128 * (s[1] % 128) + 16384 * (s[2] % 128),
        s.len() == 4 ==> groups(s) == s[0] % 128 + 128 * (s[1] % 128) + 16384 * (s[2] % 128)
            + 2097152 * (s[3] % 128),
        s.len() == 5 ==> groups(s) == s[0] % 128 + 128 * (s[1] % 128) + 16384 * (s[2] % 128)
            + 2097152 * (s[3] % 128) + 268435456 * (s[4] % 128),
{
    reveal_with_fuel(groups, 6);
    if s.len() >= 2 {
        assert(s.drop_first()[0] == s[1]);
    }
    if s.len() >= 3 {
        assert(s.drop_first().drop_first()[0] == s[2]);
    }
    if s.len() >= 4 {
        assert(s.drop_first().drop_first().drop_first()[0] == s[3]);
    }
    if s.len() >= 5 {
        assert(s.drop_first().drop_first().drop_first().drop_first()[0] == s[4]);
    }
}

/// A text is written as the number of its bytes in UTF-8, then those bytes.
pub proof fn law_var_string_layout(text: Seq<char>)
    requires
        var_string_fits(text),
    ensures
        ({
            let body = encode_utf8(text);
            let head = var_int_bytes(body.len() as i32);
            &&& var_string_bytes(text).len() == head.len() + body.len()
            &&& var_string_bytes(text).take(head.len() as int) == head
            &&& var_string_bytes(text).skip(head.len() as int) == body
        }),
{
    let body = encode_utf8(text);
    let head = var_int_bytes(body.len() as i32);
    assert(var_string_bytes(text).take(head.len() as int) =~= head);
    assert(var_string_bytes(text).skip(head.len() as int) =~= body);
}

/// A text is written down unless it takes more bytes than an integer counts.
pub proof fn law_var_string_fits(text: Seq<char>)
    ensures
        var_string_fits(text) <==> encode_utf8(text).len() <= 0x7fff_ffff,
{
}

/// A text is read whatever bytes its length is written with, and whatever follows it.
pub proof fn law_var_string_of_any_encoding(head: Seq<u8>, text: Seq<char>, rest: Seq<u8>)
    requires
        var_string_fits(text),
        encodes_var_int(head, encode_utf8(text).len() as i32),
    ensures
        var_string_scan(head + encode_utf8(text) + rest) == Some(
            (text, head.len() + encode_utf8(text).len()),
        ),
{
    let body = encode_utf8(text);
    let s = head + body + rest;
    assert(s =~= head + (body + rest));
    lemma_scan_prefix(head, body + rest);
    assert(s.subrange(head.len() as int, (head.len() + body.len()) as int) =~= body);
    vstd::utf8::encode_utf8_valid_utf8(text);
    vstd::utf8::encode_utf8_decode_utf8(text);
}

/// A text that is read is there: its length in bytes, then as many bytes, which encode it.
pub proof fn law_var_string_is_not_made_up(s: Seq<u8>)
    ensures
        var_string_scan(s) matches Some((text, used)) ==> {
            &&& used <= s.len()
            &&& var_int_scan(s) matches VarIntScan::Value { value, used: head }
            &&& value >= 0
            &&& used == head + value
            &&& valid_utf8(s.subrange(head as int, used as int))
            &&& text == decode_utf8(s.subrange(head as int, used as int))
        },
        (var_int_scan(s) matches VarIntScan::Value { value, used: head } && value >= 0 && head
            + value <= s.len() && valid_utf8(s.subrange(head as int, head + value)))
            ==> var_string_scan(s) is Some,
{
}

/// A short number is written as its high byte and its low byte, and read from them.
pub proof fn law_u_short_layout(value: u16, s: Seq<u8>)
    ensures
        u_short_bytes(value).len() == 2,
        u_short_bytes(value)[0] * 256 + u_short_bytes(value)[1] == value,
        s.len() >= 2 ==> u_short_value(s) == s[0] * 256 + s[1],
{
}

/// What is made for a value, and what is given of it.
pub proof fn law_values_are_held(
    num: i32,
    made: Option<VarInt>,
    var_int: VarInt,
    value: i32,
    data: Vec<u8>,
)
    requires
        call_ensures(VarInt::from, (num,), made),
        call_ensures(VarInt::get_int, (&var_int,), value),
        call_ensures(VarInt::get_data, (&var_int,), data),
    ensures
        made matches Some(v) && v.int_value() == num && v.bytes() == var_int_bytes(num),
        value == var_int.int_value(),
        data@ == var_int.bytes(),
{
}

/// What is taken from the front of a reader: an integer, a text or a short number, and just its
/// bytes, or nothing at all.
pub proof fn law_values_are_taken()
    ensures
        forall|reader: &mut Vec<u8>, taken: Option<VarInt>| #[trigger]
            call_ensures(VarInt::parse, (reader,), taken) ==> match var_int_scan((*reader)@) {
                VarIntScan::Value { value, used } => {
                    &&& taken matches Some(v)
                    &&& v.int_value() == value
                    &&& v.bytes() == (*reader)@.take(used as int)
                    &&& (*final(reader))@ == (*reader)@.skip(used as int)
                },
                _ => taken is None && (*final(reader))@ == (*reader)@,
            },
        forall|reader: &mut Vec<u8>, taken: Option<VarString>| #[trigger]
            call_ensures(VarString::parse, (reader,), taken) ==> match var_string_scan(
                (*reader)@,
            ) {
                Some((text, used)) => {
                    &&& taken matches Some(v)
                    &&& v.value@ == text
                    &&& (*final(reader))@ == (*reader)@.skip(used as int)
                },
                None => taken is None && (*final(reader))@ == (*reader)@,
            },
        forall|reader: &mut Vec<u8>, taken: Option<UShort>| #[trigger]
            call_ensures(UShort::parse, (reader,), taken) ==> if (*reader)@.len() >= 2 {
                &&& taken matches Some(v)
                &&& v.value == (*reader)@[0] * 256 + (*reader)@[1]
                &&& (*final(reader))@ == (*reader)@.skip(2)
            } else {
                taken is None && (*final(reader))@ == (*reader)@
            },
{
}

/// Texts and short numbers hold what they are made of, and are written as the laws say.
pub proof fn law_texts_and_shorts_are_held(
    text: String,
    made: VarString,
    held: VarString,
    given: String,
    written: Option<Vec<u8>>,
    moved: Option<Vec<u8>>,
    number: u16,
    short: UShort,
    kept: UShort,
    value: u16,
    bytes: Vec<u8>,
)
    requires
        call_ensures(VarString::from, (text,), made),
        call_ensures(VarString::get_value, (&held,), given),
        call_ensures(VarString::get_data, (&held,), written),
        call_ensures(VarString::move_data, (held,), moved),
        call_ensures(UShort::from, (number,), short),
        call_ensures(UShort::get_value, (&kept,), value),
        call_ensures(UShort::get_data, (&kept,), bytes),
    ensures
        made.value@ == text@,
        given@ == held.value@,
        written is Some <==> var_string_fits(held.value@),
        moved is Some <==> var_string_fits(held.value@),
        written matches Some(b) ==> b@ == var_string_bytes(held.value@),
        moved matches Some(b) ==> b@ == var_string_bytes(held.value@),
        short.value == number,
        value == kept.value,
        bytes@ == u_short_bytes(kept.value),
{
}

} // verus!
