use vstd::prelude::*;
use vstd::string::*;

use crate::dut::strings_view;
use crate::text::{chars_of, find_seq, find_seq_in};

verus! {

/// The ASCII decimal numeral of `n`, as bytes.
pub open spec fn dec_bytes(n: nat) -> Seq<u8>
    decreases n,
{
    if n < 10 {
        seq![(48 + n) as u8]
    } else {
        dec_bytes(n / 10).push((48 + n % 10) as u8)
    }
}

pub open spec fn is_digit_byte(b: u8) -> bool {
    48 <= b && b <= 57
}

/// The number that a string of ASCII decimal digits denotes.
pub open spec fn bytes_value(s: Seq<u8>) -> nat
    decreases s.len(),
{
    if s.len() == 0 {
        0
    } else {
        bytes_value(s.drop_last()) * 10 + (s.last() - 48) as nat
    }
}

pub open spec fn all_digit_bytes(s: Seq<u8>) -> bool {
    forall|i: int| 0 <= i < s.len() ==> is_digit_byte(#[trigger] s[i])
}

/// An IEEE 488.2 definite-length arbitrary block holding `data`, with the line end that
/// closes the message: `#`, the number of digits of the length, the length, the data.
pub open spec fn block_bytes(data: Seq<u8>) -> Seq<u8> {
    let len_digits = dec_bytes(data.len());
    seq![35u8] + dec_bytes(len_digits.len()) + len_digits + data + seq![10u8]
}

/// What a definite-length block message carries: `#`, one digit `n` from 1 to 9, `n`
/// digits giving the length `l`, `l` bytes of data, and a line end that closes the message.
pub open spec fn block_payload(b: Seq<u8>) -> Option<Seq<u8>> {
    if b.len() >= 2 && b[0] == 35 && 49 <= b[1] && b[1] <= 57 {
        let n = b[1] - 48;
        if b.len() >= 2 + n && all_digit_bytes(b.subrange(2, 2 + n)) {
            let l = bytes_value(b.subrange(2, 2 + n));
            if b.len() == 2 + n + l + 1 && b[2 + n + l] == 10 {
                Some(b.subrange(2 + n, 2 + n + l))
            } else {
                None
            }
        } else {
            None
        }
    } else {
        None
    }
}

/// `s` without its `+` and `-` characters.
pub open spec fn strip_signs(s: Seq<char>) -> Seq<char>
    decreases s.len(),
{
    if s.len() == 0 {
        s
    } else if s.last() == '+' || s.last() == '-' {
        strip_signs(s.drop_last())
    } else {
        strip_signs(s.drop_last()).push(s.last())
    }
}

/// Whether a reply to the error query says that the error queue is empty: with its
/// signs removed it starts with `0,` or says `No error`.
pub open spec fn is_clean_reply(s: Seq<char>) -> bool {
    let t = strip_signs(s);
    (t.len() >= 2 && t[0] == '0' && t[1] == ',') || find_seq(t, "No error"@) is Some
}

pub open spec fn pow10(k: nat) -> nat
    decreases k,
{
    if k == 0 {
        1
    } else {
        10 * pow10((k - 1) as nat)
    }
}

proof fn lemma_dec_bytes(n: nat)
    ensures
        dec_bytes(n).len() > 0,
        all_digit_bytes(dec_bytes(n)),
        bytes_value(dec_bytes(n)) == n,
    decreases n,
{
    reveal_with_fuel(bytes_value, 2);
    if n >= 10 {
        lemma_dec_bytes(n / 10);
        let s = dec_bytes(n);
        assert(s.drop_last() =~= dec_bytes(n / 10));
        assert forall|i: int| 0 <= i < s.len() implies is_digit_byte(#[trigger] s[i]) by {
            if i < s.len() - 1 {
                assert(s[i] == dec_bytes(n / 10)[i]);
            }
        }
    }
}

proof fn lemma_dec_bytes_len(n: nat, k: nat)
    requires
        k >= 1,
        n < pow10(k),
    ensures
        dec_bytes(n).len() <= k,
    decreases k,
{
    if n >= 10 {
        assert(k >= 2) by {
            if k == 1 {
                reveal_with_fuel(pow10, 2);
            }
        }
        lemma_dec_bytes_len(n / 10, (k - 1) as nat);
    }
}

/// A block that this client frames reads back as the data it was given, for any data
/// shorter than 10^9 bytes (the longest length that one digit of digit count can announce).
pub proof fn lemma_block_round_trip(data: Seq<u8>)
    requires
        data.len() < 1_000_000_000,
    ensures
        block_payload(block_bytes(data)) == Some(data),
{
    let len_digits = dec_bytes(data.len());
    reveal_with_fuel(pow10, 10);
    lemma_dec_bytes_len(data.len(), 9);
    lemma_dec_bytes(data.len());
    let n: int = len_digits.len() as int;
    assert(dec_bytes(n as nat) == seq![(48 + n) as u8]);
    let b = block_bytes(data);
    assert(b.subrange(2, 2 + n) =~= len_digits);
    assert(b.subrange(2 + n, 2 + n + data.len()) =~= data);
    assert(b[2 + n + data.len()] == 10);
}

fn append_bytes(out: &mut Vec<u8>, src: &[u8])
    ensures
        final(out)@ == old(out)@ + src@,
{
    let mut i: usize = 0;
    while i < src.len()
        invariant
            i <= src@.len(),
            out@ == old(out)@ + src@.take(i as int),
        decreases src@.len() - i,
    {
        out.push(src[i]);
        i = i + 1;
        assert(out@ =~= old(out)@ + src@.take(i as int));
    }
    assert(src@.take(i as int) =~= src@);
}

/// The ASCII decimal numeral of `n`.
pub fn decimal_bytes(n: u64) -> (r: Vec<u8>)
    ensures
        r@ == dec_bytes(n as nat),
    decreases n,
{
    if n < 10 {
        let mut v: Vec<u8> = Vec::new();
        v.push((48 + n) as u8);
        v
    } else {
        let mut v = decimal_bytes(n / 10);
        v.push((48 + n % 10) as u8);
        v
    }
}

/// The bytes that send one command line: the command and a line end.
pub fn command_line(cmd: &str) -> (r: Vec<u8>)
    ensures
        r@ == cmd.spec_bytes().push(10u8),
{
    let mut out: Vec<u8> = Vec::new();
    append_bytes(&mut out, cmd.as_bytes());
    out.push(10u8);
    assert(out@ =~= cmd.spec_bytes().push(10u8));
    out
}

/// The bytes that send a command followed by `data` as a definite-length block:
/// `<cmd>#<digit count><length><data>` and a line end.
pub fn write_binary_block(cmd: &str, data: &[u8]) -> (r: Vec<u8>)
    ensures
        r@ == cmd.spec_bytes() + block_bytes(data@),
{
    let len_digits = decimal_bytes(data.len() as u64);
    let count_digits = decimal_bytes(len_digits.len() as u64);
    let mut out: Vec<u8> = Vec::new();
    append_bytes(&mut out, cmd.as_bytes());
    out.push(35u8);
    append_bytes(&mut out, count_digits.as_slice());
    append_bytes(&mut out, len_digits.as_slice());
    append_bytes(&mut out, data);
    out.push(10u8);
    assert(out@ =~= cmd.spec_bytes() + block_bytes(data@));
    out
}

/// Reads a definite-length block message (see `block_payload`) back into its data.
pub fn parse_binary_block(b: &[u8]) -> (r: Option<Vec<u8>>)
    ensures
        match r {
            Some(v) => block_payload(b@) == Some(v@),
            None => block_payload(b@) == None::<Seq<u8>>,
        },
{
    if b.len() < 2 || b[0] != 35 || b[1] < 49 || b[1] > 57 {
        return None;
    }
    let n: usize = (b[1] - 48) as usize;
    if b.len() < 2 + n {
        return None;
    }
    let ghost digits = b@.subrange(2, 2 + n as int);
    let mut l: u64 = 0;
    let mut i: usize = 0;
    while i < n
        invariant
            1 <= n <= 9,
            n == b@[1] - 48,
            b@[0] == 35,
            2 + n <= b@.len(),
            l < 1_000_000_000,
            i <= n,
            digits == b@.subrange(2, 2 + n as int),
            all_digit_bytes(digits.take(i as int)),
            l == bytes_value(digits.take(i as int)),
            l < pow10(i as nat),
        decreases n - i,
    {
        let c = b[2 + i];
        assert(digits[i as int] == c);
        if c < 48 || c > 57 {
            assert(!is_digit_byte(digits[i as int]));
            return None;
        }
        let ghost p = digits.take(i + 1);
        assert(p.drop_last() =~= digits.take(i as int));
        assert(all_digit_bytes(p)) by {
            assert forall|j: int| 0 <= j < p.len() implies is_digit_byte(#[trigger] p[j]) by {
                if j < p.len() - 1 {
                    assert(p[j] == digits.take(i as int)[j]);
                }
            }
        }
        assert(pow10((i + 1) as nat) == 10 * pow10(i as nat));
        assert(l * 10 + 9 < 10 * pow10(i as nat)) by (nonlinear_arith)
            requires
                l < pow10(i as nat),
        ;
        assert(pow10(i as nat) <= 100_000_000) by {
            reveal_with_fuel(pow10, 10);
        }
        l = l * 10 + (c - 48) as u64;
        i = i + 1;
    }
    assert(digits.take(n as int) =~= digits);
    let rest: usize = b.len() - (2 + n);
    if rest as u64 != l + 1 {
        return None;
    }
    let end: usize = 2 + n + l as usize;
    if b[end] != 10 {
        return None;
    }
    let mut out: Vec<u8> = Vec::new();
    let mut j: usize = 2 + n;
    while j < end
        invariant
            2 + n <= j <= end,
            end < b@.len(),
            out@ == b@.subrange(2 + n as int, j as int),
        decreases end - j,
    {
        out.push(b[j]);
        j = j + 1;
        assert(out@ =~= b@.subrange(2 + n as int, j as int));
    }
    Some(out)
}

/// `s` without its `+` and `-` characters.
pub fn strip_sign_chars(s: &Vec<char>) -> (r: Vec<char>)
    ensures
        r@ == strip_signs(s@),
{
    let mut out: Vec<char> = Vec::new();
    let mut i: usize = 0;
    while i < s.len()
        invariant
            i <= s@.len(),
            out@ == strip_signs(s@.take(i as int)),
        decreases s@.len() - i,
    {
        assert(s@.take(i + 1).drop_last() =~= s@.take(i as int));
        let c = s[i];
        if c != '+' && c != '-' {
            out.push(c);
        }
        i = i + 1;
    }
    assert(s@.take(i as int) =~= s@);
    out
}

/// Whether a reply to the error query reports an empty error queue.
pub fn is_clean_error_reply(reply: &str) -> (r: bool)
    ensures
        r == is_clean_reply(reply@),
{
    let t = strip_sign_chars(&chars_of(reply));
    if t.len() >= 2 && t[0] == '0' && t[1] == ',' {
        return true;
    }
    let marker = chars_of("No error");
    match find_seq_in(&t, &marker) {
        Some(_) => true,
        None => false,
    }
}

/// An error that the instrument reports.
pub enum ScpiError {
    /// The replies to the error query that reported an error, oldest first.
    InstrumentErrors(Vec<String>),
}

/// Drains the instrument's error queue: the caller sends the error query, hands each
/// reply to `on_reply`, and sends the query again for as long as that returns `None`.
pub struct ErrCheck {
    errors: Vec<String>,
}

impl View for ErrCheck {
    type V = Seq<Seq<char>>;

    /// The error replies gathered so far.
    closed spec fn view(&self) -> Seq<Seq<char>> {
        strings_view(self.errors@)
    }
}

impl ErrCheck {
    /// The error query.
    pub const QUERY: &'static str = "SYST:ERR?";

    pub fn new() -> (r: ErrCheck)
        ensures
            r@ == Seq::<Seq<char>>::empty(),
    {
        let r = ErrCheck { errors: Vec::new() };
        assert(r@ =~= Seq::<Seq<char>>::empty());
        r
    }

    /// Takes the next reply to the error query. A clean reply ends the drain, which starts
    /// over empty: `Ok` if no reply before it reported an error, else every such reply, in
    /// order. Any other reply
    /// is kept, and `None` asks for the query to be sent again.
    pub fn on_reply(&mut self, reply: String) -> (r: Option<Result<(), ScpiError>>)
        ensures
            is_clean_reply(reply@) ==> final(self)@ == Seq::<Seq<char>>::empty() && match r {
                Some(Ok(())) => old(self)@.len() == 0,
                Some(Err(ScpiError::InstrumentErrors(v))) => old(self)@.len() > 0
                    && strings_view(v@) == old(self)@,
                None => false,
            },
            !is_clean_reply(reply@) ==> r is None && final(self)@ == old(self)@.push(reply@),
    {
        if is_clean_error_reply(reply.as_str()) {
            if self.errors.len() == 0 {
                assert(self@ =~= Seq::<Seq<char>>::empty());
                Some(Ok(()))
            } else {
                let mut errors: Vec<String> = Vec::new();
                core::mem::swap(&mut errors, &mut self.errors);
                assert(self@ =~= Seq::<Seq<char>>::empty());
                Some(Err(ScpiError::InstrumentErrors(errors)))
            }
        } else {
            let ghost before = self.errors@;
            self.errors.push(reply);
            assert(strings_view(self.errors@) =~= strings_view(before).push(reply@));
            None
        }
    }
}

} // verus!
