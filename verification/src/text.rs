//! Text operations on sequences of characters: splitting, trimming and numbers.

use vstd::prelude::*;
use vstd::string::StrSliceExecFns;
use vstd::string::StringExecFns;

verus! {

/// The characters with the Unicode property `White_Space`.
pub open spec fn is_white_space(c: char) -> bool {
    let code = c as u32;
    ||| 0x09 <= code <= 0x0d
    ||| code == 0x20
    ||| code == 0x85
    ||| code == 0xa0
    ||| code == 0x1680
    ||| 0x2000 <= code <= 0x200a
    ||| code == 0x2028
    ||| code == 0x2029
    ||| code == 0x202f
    ||| code == 0x205f
    ||| code == 0x3000
}

/// `char::is_whitespace` tells whether a character has the property
/// `White_Space` of the Unicode Character Database, which is the list of
/// [`is_white_space`].
pub assume_specification[ char::is_whitespace ](c: char) -> (result: bool)
    ensures
        result == is_white_space(c),
;

/// The part of `s` in front of the first `stop`, or all of `s` if there is none.
pub open spec fn up_to(s: Seq<char>, stop: char) -> Seq<char>
    decreases s.len(),
{
    if s.len() == 0 || s[0] == stop {
        Seq::empty()
    } else {
        seq![s[0]] + up_to(s.drop_first(), stop)
    }
}

/// `s` without the white space at its start.
pub open spec fn trim_start(s: Seq<char>) -> Seq<char>
    decreases s.len(),
{
    if s.len() > 0 && is_white_space(s[0]) {
        trim_start(s.drop_first())
    } else {
        s
    }
}

/// `s` without the white space at its end.
pub open spec fn trim_end(s: Seq<char>) -> Seq<char>
    decreases s.len(),
{
    if s.len() > 0 && is_white_space(s.last()) {
        trim_end(s.drop_last())
    } else {
        s
    }
}

/// `s` without the white space at its two ends.
pub open spec fn trim(s: Seq<char>) -> Seq<char> {
    trim_end(trim_start(s))
}

/// The prefix of `s` that ends in front of position `n` is what [`up_to`] gives,
/// if `stop` does not occur in it and either stands at `n` or `s` ends there.
pub proof fn lemma_up_to(s: Seq<char>, stop: char, n: int)
    requires
        0 <= n <= s.len(),
        forall|i: int| 0 <= i < n ==> s[i] != stop,
        n < s.len() ==> s[n] == stop,
    ensures
        up_to(s, stop) == s.take(n),
    decreases n,
{
    if n > 0 {
        let rest = s.drop_first();
        assert forall|i: int| 0 <= i < n - 1 implies rest[i] != stop by {
            assert(rest[i] == s[i + 1]);
        }
        lemma_up_to(rest, stop, n - 1);
        assert(seq![s[0]] + rest.take(n - 1) =~= s.take(n));
    } else {
        assert(s.take(0) =~= Seq::<char>::empty());
    }
}

/// Where [`up_to`] ends.
pub proof fn lemma_up_to_end(s: Seq<char>, stop: char) -> (n: int)
    ensures
        0 <= n <= s.len(),
        up_to(s, stop) == s.take(n),
        forall|i: int| 0 <= i < n ==> s[i] != stop,
        n < s.len() ==> s[n] == stop,
    decreases s.len(),
{
    if s.len() == 0 || s[0] == stop {
        assert(s.take(0) =~= Seq::<char>::empty());
        0
    } else {
        let rest = s.drop_first();
        let m = lemma_up_to_end(rest, stop);
        assert(seq![s[0]] + rest.take(m) =~= s.take(m + 1));
        assert forall|i: int| 0 <= i < m + 1 implies s[i] != stop by {
            if i > 0 {
                assert(rest[i - 1] == s[i]);
            }
        }
        if m + 1 < s.len() {
            assert(rest[m] == s[m + 1]);
        }
        m + 1
    }
}

proof fn lemma_trim_start(s: Seq<char>, from: int)
    requires
        0 <= from <= s.len(),
        forall|i: int| 0 <= i < from ==> is_white_space(s[i]),
        from < s.len() ==> !is_white_space(s[from]),
    ensures
        trim_start(s) == s.skip(from),
    decreases from,
{
    if from > 0 {
        let rest = s.drop_first();
        assert forall|i: int| 0 <= i < from - 1 implies is_white_space(rest[i]) by {
            assert(rest[i] == s[i + 1]);
        }
        lemma_trim_start(rest, from - 1);
        assert(rest.skip(from - 1) =~= s.skip(from));
    } else {
        assert(s.skip(0) =~= s);
    }
}

proof fn lemma_trim_end(s: Seq<char>, to: int)
    requires
        0 <= to <= s.len(),
        forall|i: int| to <= i < s.len() ==> is_white_space(s[i]),
        to > 0 ==> !is_white_space(s[to - 1]),
    ensures
        trim_end(s) == s.take(to),
    decreases s.len() - to,
{
    if to < s.len() {
        lemma_trim_end(s.drop_last(), to);
        assert(s.drop_last().take(to) =~= s.take(to));
    } else {
        assert(s.take(to) =~= s);
    }
}

/// A range of `s` is what [`trim`] gives, if all outside it is white space and
/// it is empty or neither of its ends is.
pub proof fn lemma_trim(s: Seq<char>, from: int, to: int)
    requires
        0 <= from <= to <= s.len(),
        forall|i: int| 0 <= i < from ==> is_white_space(s[i]),
        forall|i: int| to <= i < s.len() ==> is_white_space(s[i]),
        from < to ==> !is_white_space(s[from]) && !is_white_space(s[to - 1]),
    ensures
        trim(s) == s.subrange(from, to),
{
    if from < to {
        lemma_trim_start(s, from);
        let t = s.skip(from);
        assert forall|i: int| to - from <= i < t.len() implies is_white_space(t[i]) by {
            assert(t[i] == s[i + from]);
        }
        assert(t[to - from - 1] == s[to - 1]);
        lemma_trim_end(t, to - from);
        assert(t.take(to - from) =~= s.subrange(from, to));
    } else {
        lemma_trim_start(s, s.len() as int);
        assert(s.skip(s.len() as int) =~= Seq::<char>::empty());
        assert(s.subrange(from, to) =~= Seq::<char>::empty());
    }
}

/// Where [`trim`] starts and ends.
pub proof fn lemma_trim_ends(s: Seq<char>) -> (range: (int, int))
    ensures
        0 <= range.0 <= range.1 <= s.len(),
        trim(s) == s.subrange(range.0, range.1),
        forall|i: int| 0 <= i < range.0 ==> is_white_space(s[i]),
        forall|i: int| range.1 <= i < s.len() ==> is_white_space(s[i]),
        range.0 < range.1 ==> !is_white_space(s[range.0]) && !is_white_space(s[range.1 - 1]),
    decreases s.len(),
{
    if s.len() > 0 && is_white_space(s[0]) {
        let rest = s.drop_first();
        let (from, to) = lemma_trim_ends(rest);
        assert forall|i: int| 0 <= i < from + 1 implies is_white_space(s[i]) by {
            if i > 0 {
                assert(rest[i - 1] == s[i]);
            }
        }
        assert forall|i: int| to + 1 <= i < s.len() implies is_white_space(s[i]) by {
            assert(rest[i - 1] == s[i]);
        }
        if from < to {
            assert(rest[from] == s[from + 1]);
            assert(rest[to - 1] == s[to]);
        }
        assert(rest.subrange(from, to) =~= s.subrange(from + 1, to + 1));
        (from + 1, to + 1)
    } else if s.len() > 0 && is_white_space(s.last()) {
        let rest = s.drop_last();
        assert(s.len() > 1);
        let (from, to) = lemma_trim_ends(rest);
        assert(rest[0] == s[0]);
        assert(from == 0 && to > 0);
        assert forall|i: int| to <= i < s.len() implies is_white_space(s[i]) by {
            if i < rest.len() {
                assert(rest[i] == s[i]);
            }
        }
        lemma_trim(s, from, to);
        (from, to)
    } else {
        assert(s.subrange(0, s.len() as int) =~= s);
        (0, s.len() as int)
    }
}

/// The character of a decimal digit.
pub open spec fn digit_char(digit: nat) -> char {
    (digit + 0x30) as char
}

/// The decimal notation of `n`, without leading zeros.
pub open spec fn decimal(n: nat) -> Seq<char>
    decreases n,
{
    if n < 10 {
        seq![digit_char(n)]
    } else {
        decimal(n / 10).push(digit_char(n % 10))
    }
}

/// All characters of `digits` are decimal digits.
pub open spec fn is_decimal(digits: Seq<char>) -> bool {
    forall|i: int| 0 <= i < digits.len() ==> '0' <= #[trigger] digits[i] <= '9'
}

/// The number that decimal digits spell.
pub open spec fn decimal_value(digits: Seq<char>) -> nat
    decreases digits.len(),
{
    if digits.len() == 0 {
        0
    } else {
        (10 * decimal_value(digits.drop_last()) + (digits.last() as int - 0x30)) as nat
    }
}

/// The character of a hexadecimal digit, in lower case.
pub open spec fn hex_digit_char(digit: nat) -> char {
    if digit < 10 {
        digit_char(digit)
    } else {
        (digit - 10 + 0x61) as char
    }
}

/// The hexadecimal notation of `n`, without leading zeros.
pub open spec fn hexadecimal(n: nat) -> Seq<char>
    decreases n,
{
    if n < 16 {
        seq![hex_digit_char(n)]
    } else {
        hexadecimal(n / 16).push(hex_digit_char(n % 16))
    }
}

/// The parts, with `separator` between each two of them.
pub open spec fn joined(parts: Seq<Seq<char>>, separator: Seq<char>) -> Seq<char>
    decreases parts.len(),
{
    if parts.len() == 0 {
        Seq::empty()
    } else if parts.len() == 1 {
        parts[0]
    } else {
        joined(parts.drop_last(), separator) + separator + parts.last()
    }
}

/// The text of one decimal digit.
fn digit_text(digit: u16) -> (text: &'static str)
    requires
        digit < 10,
    ensures
        text@ == seq![digit_char(digit as nat)],
{
    proof {
        reveal_strlit("0");
        reveal_strlit("1");
        reveal_strlit("2");
        reveal_strlit("3");
        reveal_strlit("4");
        reveal_strlit("5");
        reveal_strlit("6");
        reveal_strlit("7");
        reveal_strlit("8");
        reveal_strlit("9");
    }
    match digit {
        0 => "0",
        1 => "1",
        2 => "2",
        3 => "3",
        4 => "4",
        5 => "5",
        6 => "6",
        7 => "7",
        8 => "8",
        _ => "9",
    }
}

/// Appends the decimal notation of `n` to `text`.
pub fn append_decimal(text: &mut String, n: u16)
    ensures
        final(text)@ == old(text)@ + decimal(n as nat),
    decreases n,
{
    if n >= 10 {
        append_decimal(text, n / 10);
    }
    text.append(digit_text(n % 10));
    assert(text@ =~= old(text)@ + decimal(n as nat));
}

/// The address `host:port`.
pub open spec fn host_port(host: Seq<char>, port: u16) -> Seq<char> {
    host + seq![':'] + decimal(port as nat)
}

/// Writes `host` and `port` as one address.
pub fn host_port_text(host: &str, port: u16) -> (address: String)
    ensures
        address@ == host_port(host@, port),
{
    let mut address = host.to_owned();
    address.append(":");
    append_decimal(&mut address, port);
    proof {
        reveal_strlit(":");
        assert(":"@ =~= seq![':']);
    }
    address
}

/// Cuts `text` at its first `stop` and trims what stands in front of it.
pub fn trim_up_to(text: &str, stop: char) -> (part: String)
    ensures
        part@ == trim(up_to(text@, stop)),
{
    let length: usize = text.unicode_len();
    let mut chars = text.chars();
    let mut i: usize = 0;
    let mut from: usize = 0;
    let mut to: usize = 0;
    while i < length
        invariant_except_break
            vstd::std_specs::iter::IteratorSpec::remaining(&chars) == text@.skip(i as int),
        invariant
            length == text@.len(),
            i <= length,
            from <= to <= i,
            forall|k: int| 0 <= k < i ==> text@[k] != stop,
            forall|k: int| 0 <= k < from ==> is_white_space(text@[k]),
            forall|k: int| to <= k < i ==> is_white_space(text@[k]),
            from < to ==> !is_white_space(text@[from as int]) && !is_white_space(text@[to - 1]),
        ensures
            i < length ==> text@[i as int] == stop,
        decreases length - i,
    {
        match chars.next() {
            Some(c) => {
                assert(c == text@[i as int]);
                if c == stop {
                    break;
                }
                if !c.is_whitespace() {
                    if from == to {
                        from = i;
                    }
                    to = i + 1;
                }
            },
            None => {},
        }
        i = i + 1;
        assert(vstd::std_specs::iter::IteratorSpec::remaining(&chars) =~= text@.skip(i as int));
    }
    proof {
        lemma_up_to(text@, stop, i as int);
        let front = text@.take(i as int);
        lemma_trim(front, from as int, to as int);
        assert(front.subrange(from as int, to as int) =~= text@.subrange(from as int, to as int));
    }
    text.substring_char(from, to).to_owned()
}

/// The decimal notation of a number consists of digits, spells the number, and does
/// not begin with a zero unless that is all of it.
pub proof fn law_decimal_spells_the_number(n: nat)
    ensures
        decimal(n).len() > 0,
        is_decimal(decimal(n)),
        decimal_value(decimal(n)) == n,
        n > 0 ==> decimal(n)[0] != '0',
        n < 10 ==> decimal(n).len() == 1,
    decreases n,
{
    let digits = decimal(n);
    if n < 10 {
        assert(digits.drop_last() =~= Seq::<char>::empty());
        assert(digits.last() == digit_char(n));
        assert(decimal_value(digits.drop_last()) == 0);
    } else {
        law_decimal_spells_the_number(n / 10);
        assert(digits.drop_last() =~= decimal(n / 10));
        assert(digits.last() == digit_char(n % 10));
        assert(digits[0] == decimal(n / 10)[0]);
        assert forall|i: int| 0 <= i < digits.len() implies '0' <= #[trigger] digits[i] <= '9' by {
            if i < decimal(n / 10).len() {
                assert(digits[i] == decimal(n / 10)[i]);
            }
        }
    }
}

/// An address is the host, a colon and the digits of the port, without zeros in front.
pub proof fn law_address_is_host_and_port(host: &str, port: u16, address: String)
    requires
        call_ensures(host_port_text, (host, port), address),
    ensures
        address@.len() > host@.len() + 1,
        address@.take(host@.len() as int) == host@,
        address@[host@.len() as int] == ':',
        is_decimal(address@.skip(host@.len() as int + 1)),
        decimal_value(address@.skip(host@.len() as int + 1)) == port,
        port > 0 ==> address@[host@.len() as int + 1] != '0',
        port == 0 ==> address@.len() == host@.len() + 2,
{
    law_decimal_spells_the_number(port as nat);
    assert(address@.take(host@.len() as int) =~= host@);
    assert(address@.skip(host@.len() as int + 1) =~= decimal(port as nat));
    assert(address@[host@.len() as int + 1] == decimal(port as nat)[0]);
}

/// No two backends share an address: it gives back the host and the port.
pub proof fn law_addresses_are_distinct(
    one_host: &str,
    one_port: u16,
    one: String,
    other_host: &str,
    other_port: u16,
    other: String,
)
    requires
        call_ensures(host_port_text, (one_host, one_port), one),
        call_ensures(host_port_text, (other_host, other_port), other),
    ensures
        one@ == other@ <==> one_host@ == other_host@ && one_port == other_port,
{
    if one@ == other@ {
        law_address_is_host_and_port(one_host, one_port, one);
        law_address_is_host_and_port(other_host, other_port, other);
        let m = one_host@.len() as int;
        let n = other_host@.len() as int;
        if m < n {
            assert(one@.skip(m + 1)[n - m - 1] == ':');
        } else if n < m {
            assert(other@.skip(n + 1)[m - n - 1] == ':');
        }
    }
}

/// The part of a text that is left when it is cut and trimmed is a range of it. What
/// stands around the range, up to the first `stop` or to the end, is white space, and
/// the range neither begins nor ends with any.
pub proof fn law_cut_and_trimmed(text: &str, stop: char, part: String)
    requires
        call_ensures(trim_up_to, (text, stop), part),
    ensures
        exists|from: int, to: int, end: int| #[trigger]
            is_trimmed_range(text@, stop, from, to, end) && part@ == text@.subrange(from, to),
{
    let end = lemma_up_to_end(text@, stop);
    let front = text@.take(end);
    let (from, to) = lemma_trim_ends(front);
    assert forall|i: int| 0 <= i < from || to <= i < end implies is_white_space(
        #[trigger] text@[i],
    ) by {
        assert(front[i] == text@[i]);
    }
    if from < to {
        assert(front[from] == text@[from]);
        assert(front[to - 1] == text@[to - 1]);
    }
    assert(front.subrange(from, to) =~= text@.subrange(from, to));
    assert(is_trimmed_range(text@, stop, from, to, end));
}

/// `end` is where the first `stop` stands in `text`, or the end of `text`. In front of
/// it, all outside the range from `from` to `to` is white space, and the range is
/// empty or begins and ends with something else.
pub open spec fn is_trimmed_range(
    text: Seq<char>,
    stop: char,
    from: int,
    to: int,
    end: int,
) -> bool {
    &&& 0 <= from <= to <= end <= text.len()
    &&& forall|i: int| 0 <= i < end ==> #[trigger] text[i] != stop
    &&& end < text.len() ==> text[end] == stop
    &&& forall|i: int| 0 <= i < from || to <= i < end ==> is_white_space(#[trigger] text[i])
    &&& from < to ==> !is_white_space(text[from]) && !is_white_space(text[to - 1])
}

} // verus!
