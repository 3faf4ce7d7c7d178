//! Interface addresses and the text that summarises them.
use vstd::prelude::*;
use crate::text::string_from_chars;

verus! {

/// An address bound to a network interface.
#[derive(Clone, Copy, Debug, PartialEq, Eq)]
pub enum IpAddress {
    /// An IPv4 address, by its four octets.
    V4(u8, u8, u8, u8),
    /// An IPv6 address, by its eight 16-bit segments.
    V6([u16; 8]),
}

/// The ASCII digit for `d < 10`.
pub open spec fn digit_char(d: nat) -> char {
    ((0x30 + d) as u8) as char
}

/// `n` in decimal, without leading zeros.
pub open spec fn decimal(n: nat) -> Seq<char>
    decreases n,
{
    if n < 10 {
        seq![digit_char(n)]
    } else {
        decimal(n / 10).push(digit_char(n % 10))
    }
}

/// The dotted-decimal text of an IPv4 address.
pub open spec fn dotted(a: u8, b: u8, c: u8, d: u8) -> Seq<char> {
    decimal(a as nat) + seq!['.'] + decimal(b as nat) + seq!['.'] + decimal(c as nat) + seq!['.']
        + decimal(d as nat)
}

/// The texts of the IPv4 addresses among `addrs`, in their order.
pub open spec fn v4_texts(addrs: Seq<IpAddress>) -> Seq<Seq<char>>
    decreases addrs.len(),
{
    if addrs.len() == 0 {
        Seq::empty()
    } else {
        let prev = v4_texts(addrs.drop_last());
        match addrs.last() {
            IpAddress::V4(a, b, c, d) => prev.push(dotted(a, b, c, d)),
            IpAddress::V6(_) => prev,
        }
    }
}

/// `parts` with `sep` between each two neighbours.
pub open spec fn join(parts: Seq<Seq<char>>, sep: Seq<char>) -> Seq<char>
    decreases parts.len(),
{
    if parts.len() == 0 {
        Seq::empty()
    } else if parts.len() == 1 {
        parts[0]
    } else {
        join(parts.drop_last(), sep) + sep + parts.last()
    }
}

/// The summary of an interface's addresses: its IPv4 addresses joined by
/// `", "`, or `"N/A"` where it has none.
pub open spec fn summary_of(addrs: Seq<IpAddress>) -> Seq<char> {
    if v4_texts(addrs).len() == 0 {
        "N/A"@
    } else {
        join(v4_texts(addrs), seq![',', ' '])
    }
}

/// IPv6 addresses leave the summary as it is: appending one changes nothing.
pub proof fn lemma_ipv6_not_summarised(addrs: Seq<IpAddress>, segments: [u16; 8])
    ensures
        summary_of(addrs.push(IpAddress::V6(segments))) == summary_of(addrs),
{
    assert(addrs.push(IpAddress::V6(segments)).drop_last() =~= addrs);
}

/// An interface without addresses is summarised as `"N/A"`.
pub proof fn lemma_no_address_is_na()
    ensures
        summary_of(Seq::empty()) == "N/A"@,
{
}

fn digit(d: u8) -> (r: char)
    requires
        d < 10,
    ensures
        r == digit_char(d as nat),
{
    (0x30 + d) as char
}

/// Appends `n` in decimal to `out`.
pub fn push_decimal(out: &mut Vec<char>, n: u8)
    ensures
        final(out)@ == old(out)@ + decimal(n as nat),
{
    proof {
        reveal_with_fuel(decimal, 3);
    }
    if n >= 100 {
        assert(n / 10 >= 10 && (n / 10) / 10 == n / 100 && n / 100 < 10);
        out.push(digit(n / 100));
    }
    if n >= 10 {
        out.push(digit((n / 10) % 10));
    }
    out.push(digit(n % 10));
    assert(final(out)@ =~= old(out)@ + decimal(n as nat));
}

/// Appends the dotted-decimal text of an IPv4 address to `out`.
pub fn push_dotted(out: &mut Vec<char>, a: u8, b: u8, c: u8, d: u8)
    ensures
        final(out)@ == old(out)@ + dotted(a, b, c, d),
{
    push_decimal(out, a);
    out.push('.');
    push_decimal(out, b);
    out.push('.');
    push_decimal(out, c);
    out.push('.');
    push_decimal(out, d);
    assert(final(out)@ =~= old(out)@ + dotted(a, b, c, d));
}

/// The text of an interface's addresses: its IPv4 addresses in dotted decimal,
/// in their order, joined by `", "`; `"N/A"` where it has no IPv4 address.
pub fn address_summary(addrs: &Vec<IpAddress>) -> (r: String)
    ensures
        r@ == summary_of(addrs@),
{
    let mut acc: Vec<char> = Vec::new();
    let mut count: usize = 0;
    let mut i: usize = 0;
    assert(addrs@.take(0) =~= Seq::<IpAddress>::empty());
    while i < addrs.len()
        invariant
            i <= addrs.len(),
            count <= i,
            v4_texts(addrs@.take(i as int)).len() == count,
            acc@ == join(v4_texts(addrs@.take(i as int)), seq![',', ' ']),
        decreases addrs.len() - i,
    {
        assert(addrs@.take(i + 1).drop_last() =~= addrs@.take(i as int));
        match addrs[i] {
            IpAddress::V4(a, b, c, d) => {
                let ghost prev = v4_texts(addrs@.take(i as int));
                let ghost t = dotted(a, b, c, d);
                assert(prev.push(t).drop_last() =~= prev);
                if count > 0 {
                    acc.push(',');
                    acc.push(' ');
                }
                push_dotted(&mut acc, a, b, c, d);
                assert(acc@ =~= join(prev.push(t), seq![',', ' ']));
                count = count + 1;
            },
            IpAddress::V6(_) => {},
        }
        i = i + 1;
    }
    assert(addrs@.take(i as int) =~= addrs@);
    if count == 0 {
        String::from_str("N/A")
    } else {
        string_from_chars(acc)
    }
}

} // verus!
