//! The logical counter's text form: hexadecimal digits, written as exactly
//! four upper-case digits and read from one or more digits of either case.
use vstd::prelude::*;

verus! {

/// The largest counter value; it fills the four hex digits.
pub const MAX_COUNTER: u32 = 0xFFFF;

/// The upper-case hex digit for `v`, which is below 16.
pub open spec fn hex_digit(v: int) -> char {
    if v < 10 {
        ((48 + v) as u8) as char
    } else {
        ((55 + v) as u8) as char
    }
}

/// The value of a hex digit of either case, or `None` for any other char.
pub open spec fn digit_value(c: char) -> Option<int> {
    if '0' <= c && c <= '9' {
        Some(c as int - 48)
    } else if 'A' <= c && c <= 'F' {
        Some(c as int - 55)
    } else if 'a' <= c && c <= 'f' {
        Some(c as int - 87)
    } else {
        None
    }
}

pub open spec fn all_hex(s: Seq<char>) -> bool {
    forall|i: int| 0 <= i < s.len() ==> (#[trigger] digit_value(s[i])) is Some
}

/// The number that a run of hex digits writes, most significant first.
pub open spec fn hex_value(s: Seq<char>) -> int
    decreases s.len(),
{
    if s.len() == 0 {
        0
    } else {
        hex_value(s.drop_last()) * 16 + digit_value(s.last()).unwrap()
    }
}

/// The counter that a text field writes: one or more hex digits whose value
/// fits the counter.
pub open spec fn counter_from_text(s: Seq<char>) -> Option<u16> {
    if s.len() > 0 && all_hex(s) && hex_value(s) <= MAX_COUNTER {
        Some(hex_value(s) as u16)
    } else {
        None
    }
}

/// The four upper-case hex digits of a counter, zero-padded.
pub open spec fn counter_text(c: u16) -> Seq<char> {
    let v = c as int;
    seq![hex_digit(v / 4096), hex_digit((v % 4096) / 256), hex_digit((v % 256) / 16), hex_digit(v % 16)]
}

proof fn lemma_hex_digit_value(v: int)
    requires
        0 <= v < 16,
    ensures
        digit_value(hex_digit(v)) == Some(v),
{
}

/// More digits never make a smaller value.
proof fn lemma_hex_value_prefix(s: Seq<char>, i: int)
    requires
        all_hex(s),
        0 <= i <= s.len(),
    ensures
        hex_value(s.take(i)) <= hex_value(s),
        0 <= hex_value(s.take(i)),
    decreases s.len(),
{
    if s.len() > 0 {
        assert(all_hex(s.drop_last()));
        if i == s.len() {
            assert(s.take(i) =~= s);
            lemma_hex_value_prefix(s.drop_last(), 0);
        } else {
            assert(s.drop_last().take(i) =~= s.take(i));
            lemma_hex_value_prefix(s.drop_last(), i);
            let _ = digit_value(s[s.len() - 1]);
        }
    }
}

/// The four digits read back to the counter.
pub proof fn lemma_counter_text_reads_back(c: u16)
    ensures
        counter_from_text(counter_text(c)) == Some(c),
{
    let t = counter_text(c);
    let v = c as int;
    lemma_hex_digit_value(v / 4096);
    lemma_hex_digit_value((v % 4096) / 256);
    lemma_hex_digit_value((v % 256) / 16);
    lemma_hex_digit_value(v % 16);
    let t1 = t.take(1);
    let t2 = t.take(2);
    let t3 = t.take(3);
    assert(t1.drop_last() =~= Seq::<char>::empty());
    assert(t2.drop_last() =~= t1);
    assert(t3.drop_last() =~= t2);
    assert(t.drop_last() =~= t3);
    assert(hex_value(Seq::<char>::empty()) == 0);
    assert(hex_value(t1) == v / 4096);
    assert(hex_value(t2) == (v / 4096) * 16 + (v % 4096) / 256);
    assert(hex_value(t3) == ((v / 4096) * 16 + (v % 4096) / 256) * 16 + (v % 256) / 16);
    assert(hex_value(t) == (((v / 4096) * 16 + (v % 4096) / 256) * 16 + (v % 256) / 16) * 16 + v
        % 16);
    assert((((v / 4096) * 16 + (v % 4096) / 256) * 16 + (v % 256) / 16) * 16 + v % 16 == v) by {
        assert(0 <= v < 65536);
    }
    assert(all_hex(t));
}

/// Appends the four upper-case hex digits of `c`.
pub fn push_counter_text(out: &mut String, c: u16)
    ensures
        final(out)@ == old(out)@ + counter_text(c),
{
    let ghost start = out@;
    out.push(hex_digit_char(c / 4096));
    out.push(hex_digit_char((c % 4096) / 256));
    out.push(hex_digit_char((c % 256) / 16));
    out.push(hex_digit_char(c % 16));
    assert(out@ =~= start + counter_text(c));
}

fn hex_digit_char(v: u16) -> (r: char)
    requires
        v < 16,
    ensures
        r == hex_digit(v as int),
{
    if v < 10 {
        ((48 + v) as u8) as char
    } else {
        ((55 + v) as u8) as char
    }
}

fn digit_value_of(c: char) -> (r: Option<u32>)
    ensures
        r matches Some(v) ==> digit_value(c) == Some(v as int) && v < 16,
        r is None ==> digit_value(c) is None,
{
    if '0' <= c && c <= '9' {
        Some(c as u32 - 48)
    } else if 'A' <= c && c <= 'F' {
        Some(c as u32 - 55)
    } else if 'a' <= c && c <= 'f' {
        Some(c as u32 - 87)
    } else {
        None
    }
}

/// Reads a counter from a run of hex digits of either case.
pub fn parse_counter(s: &str) -> (r: Option<u16>)
    ensures
        r == counter_from_text(s@),
{
    let n = s.unicode_len();
    if n == 0 {
        return None;
    }
    let mut acc: u32 = 0;
    let mut i: usize = 0;
    while i < n
        invariant
            n == s@.len(),
            i <= n,
            all_hex(s@.take(i as int)),
            acc as int == hex_value(s@.take(i as int)),
            acc <= MAX_COUNTER,
        decreases n - i,
    {
        let c = s.get_char(i);
        let ghost prefix = s@.take(i as int);
        let ghost next = s@.take(i + 1);
        assert(next.drop_last() =~= prefix);
        match digit_value_of(c) {
            None => {
                assert(!all_hex(s@)) by {
                    assert(digit_value(s@[i as int]) is None);
                }
                return None;
            },
            Some(v) => {
                acc = acc * 16 + v;
                assert(all_hex(next)) by {
                    assert forall|k: int| 0 <= k < next.len() implies (#[trigger] digit_value(
                        next[k],
                    )) is Some by {
                        if k < i {
                            assert(next[k] == prefix[k]);
                        }
                    }
                }
                if acc > MAX_COUNTER {
                    proof {
                        if all_hex(s@) {
                            lemma_hex_value_prefix(s@, i + 1);
                        }
                    }
                    return None;
                }
                i = i + 1;
            },
        }
    }
    assert(s@.take(n as int) =~= s@);
    Some(acc as u16)
}

} // verus!
