//! Numbers and IPv4 addresses written as text, read as `std` reads them.
use vstd::prelude::*;

verus! {

/// An ASCII decimal digit.
pub open spec fn is_digit(c: char) -> bool {
    '0' <= c && c <= '9'
}

/// The value of a decimal digit.
pub open spec fn digit_value(c: char) -> nat {
    (c as nat - '0' as nat) as nat
}

/// Every character of `s` is a decimal digit.
pub open spec fn all_digits(s: Seq<char>) -> bool {
    forall|i: int| 0 <= i < s.len() ==> is_digit(#[trigger] s[i])
}

/// The number that the digits `s` denote, most significant first.
pub open spec fn decimal_value(s: Seq<char>) -> nat
    decreases s.len(),
{
    if s.len() == 0 {
        0
    } else {
        decimal_value(s.drop_last()) * 10 + digit_value(s.last())
    }
}

/// The digits of a port number: what follows an optional leading `+`.
pub open spec fn port_digits(s: Seq<char>) -> Seq<char> {
    if s.len() > 0 && s[0] == '+' {
        s.drop_first()
    } else {
        s
    }
}

/// A port number: an optional `+` followed by one or more decimal digits whose
/// value fits in 16 bits. Leading zeros are allowed.
pub open spec fn is_port_text(s: Seq<char>) -> bool {
    let d = port_digits(s);
    d.len() > 0 && all_digits(d) && decimal_value(d) <= 0xffff
}

/// The number a port text denotes.
pub open spec fn port_value(s: Seq<char>) -> nat {
    decimal_value(port_digits(s))
}

/// Adding a digit never makes a number smaller.
pub proof fn lemma_push_digit_grows(s: Seq<char>, c: char)
    requires
        is_digit(c),
    ensures
        decimal_value(s.push(c)) >= decimal_value(s),
        decimal_value(s.push(c)) == decimal_value(s) * 10 + digit_value(c),
{
    assert(s.push(c).drop_last() =~= s);
}

/// Reads a port number.
pub fn parse_port(s: &str) -> (r: Option<u16>)
    ensures
        r matches Some(p) ==> is_port_text(s@) && p as nat == port_value(s@),
        r is None ==> !is_port_text(s@),
{
    let n = s.unicode_len();
    let mut i: usize = 0;
    if n > 0 && s.get_char(0) == '+' {
        i = 1;
    }
    let start = i;
    let ghost d = port_digits(s@);
    assert(d =~= s@.subrange(start as int, n as int));
    if start == n {
        return None;
    }
    let mut value: u32 = 0;
    while i < n
        invariant
            start <= i <= n,
            n == s@.len(),
            d == port_digits(s@),
            d =~= s@.subrange(start as int, n as int),
            all_digits(d.subrange(0, i - start)),
            value as nat == decimal_value(d.subrange(0, i - start)),
            value <= 0xffff,
        decreases n - i,
    {
        let c = s.get_char(i);
        if !('0' <= c && c <= '9') {
            assert(d[i - start] == c && !is_digit(d[i - start]));
            return None;
        }
        let digit = (c as u32) - ('0' as u32);
        let ghost before = d.subrange(0, i - start);
        proof {
            lemma_push_digit_grows(before, c);
            assert(before.push(c) =~= d.subrange(0, i + 1 - start));
        }
        value = value * 10 + digit;
        i = i + 1;
        if value > 0xffff {
            proof {
                if all_digits(d) {
                    lemma_prefix_value_bound(d, (i - start) as int);
                }
            }
            return None;
        }
    }
    assert(d.subrange(0, n - start) =~= d);
    Some(value as u16)
}

/// The value of the whole is at least the value of any prefix.
pub proof fn lemma_prefix_value_bound(s: Seq<char>, k: int)
    requires
        0 <= k <= s.len(),
        all_digits(s),
    ensures
        decimal_value(s.subrange(0, k)) <= decimal_value(s),
    decreases s.len() - k,
{
    if k < s.len() {
        lemma_prefix_value_bound(s, k + 1);
        lemma_push_digit_grows(s.subrange(0, k), s[k]);
        assert(s.subrange(0, k).push(s[k]) =~= s.subrange(0, k + 1));
    } else {
        assert(s.subrange(0, k) =~= s);
    }
}

/// The fields of `s` between dots, in order; a text without a dot is one field.
pub open spec fn dot_fields(s: Seq<char>) -> Seq<Seq<char>>
    decreases s.len(),
{
    if s.len() == 0 {
        seq![Seq::empty()]
    } else {
        let prev = dot_fields(s.drop_last());
        if s.last() == '.' {
            prev.push(Seq::empty())
        } else {
            prev.update(prev.len() - 1, prev.last().push(s.last()))
        }
    }
}

/// One part of a dotted-quad address: one to three digits, no leading zero,
/// at most 255.
pub open spec fn is_octet_text(f: Seq<char>) -> bool {
    &&& 1 <= f.len() <= 3
    &&& all_digits(f)
    &&& (f.len() == 1 || f[0] != '0')
    &&& decimal_value(f) <= 255
}

/// A dotted-quad IPv4 address: exactly four octets separated by dots.
pub open spec fn is_ipv4_text(s: Seq<char>) -> bool {
    let f = dot_fields(s);
    f.len() == 4 && forall|k: int| 0 <= k < 4 ==> is_octet_text(#[trigger] f[k])
}

/// The four numbers of a dotted-quad address.
pub open spec fn ipv4_octets(s: Seq<char>) -> Seq<u8> {
    dot_fields(s).map_values(|f: Seq<char>| decimal_value(f) as u8)
}

/// Reads a dotted-quad IPv4 address into its four octets.
pub fn parse_ipv4(s: &str) -> (r: Option<[u8; 4]>)
    ensures
        r matches Some(a) ==> is_ipv4_text(s@) && a@ == ipv4_octets(s@),
        r is None ==> !is_ipv4_text(s@),
{
    let n = s.unicode_len();
    let mut i: usize = 0;
    // Completed fields, saturated at five.
    let mut count: usize = 1;
    let mut done_ok = true;
    let mut octets: Vec<u8> = Vec::new();
    let mut cur_len: usize = 0;
    let mut cur_digits = true;
    let mut cur_lead_zero = false;
    let mut cur_val: u32 = 0;
    assert(s@.subrange(0, 0) =~= Seq::<char>::empty());
    while i < n
        invariant
            i <= n,
            n == s@.len(),
            cur_len <= i,
            ({
                let sp = dot_fields(s@.subrange(0, i as int));
                &&& sp.len() >= 1
                &&& count as int == if sp.len() < 5 { sp.len() as int } else { 5 }
                &&& done_ok == forall|k: int| 0 <= k < sp.len() - 1 ==> is_octet_text(#[trigger] sp[k])
                &&& done_ok ==> octets@.len() == sp.len() - 1
                &&& done_ok ==> forall|k: int| 0 <= k < octets@.len() ==> octets@[k] as nat == decimal_value(#[trigger] sp[k])
                &&& cur_len == sp.last().len()
                &&& cur_digits == all_digits(sp.last())
                &&& cur_lead_zero == (sp.last().len() > 0 && sp.last()[0] == '0')
                &&& cur_digits ==> cur_val as nat == if decimal_value(sp.last()) < 256 { decimal_value(sp.last()) } else { 256 }
            }),
        decreases n - i,
    {
        let c = s.get_char(i);
        let ghost pre = s@.subrange(0, i as int);
        let ghost sp = dot_fields(pre);
        let ghost cur = sp.last();
        proof {
            assert(s@.subrange(0, i + 1).drop_last() =~= pre);
            assert(s@.subrange(0, i + 1).last() == c);
        }
        if c == '.' {
            let ok = cur_digits && 1 <= cur_len && cur_len <= 3 && !(cur_len > 1 && cur_lead_zero) && cur_val <= 255;
            proof {
                let sp2 = dot_fields(s@.subrange(0, i + 1));
                assert(sp2 == sp.push(Seq::<char>::empty()));
                assert(ok == is_octet_text(cur));
                assert((done_ok && ok) == forall|k: int| 0 <= k < sp2.len() - 1 ==> is_octet_text(#[trigger] sp2[k])) by {
                    if done_ok && ok {
                        assert forall|k: int| 0 <= k < sp2.len() - 1 implies is_octet_text(#[trigger] sp2[k]) by {
                            if k < sp.len() - 1 {
                                assert(sp2[k] == sp[k]);
                            } else {
                                assert(sp2[k] == cur);
                            }
                        }
                    } else if !ok {
                        assert(sp2[sp.len() - 1] == cur);
                    } else {
                        let k = choose|k: int| 0 <= k < sp.len() - 1 && !is_octet_text(#[trigger] sp[k]);
                        assert(sp2[k] == sp[k]);
                    }
                }
            }
            done_ok = done_ok && ok;
            if done_ok {
                octets.push(cur_val as u8);
            }
            if count < 5 {
                count = count + 1;
            }
            cur_len = 0;
            cur_digits = true;
            cur_lead_zero = false;
            cur_val = 0;
            proof {
                let sp2 = dot_fields(s@.subrange(0, i + 1));
                assert(sp2.last() =~= Seq::<char>::empty());
                if done_ok {
                    assert forall|k: int| 0 <= k < octets@.len() implies octets@[k] as nat == decimal_value(#[trigger] sp2[k]) by {
                        assert(sp2[k] == sp[k] || k == sp.len() - 1);
                    }
                }
            }
        } else {
            let is_d = '0' <= c && c <= '9';
            proof {
                let sp2 = dot_fields(s@.subrange(0, i + 1));
                assert(sp2 == sp.update(sp.len() - 1, cur.push(c)));
                assert(sp2.last() == cur.push(c));
                assert(forall|k: int| 0 <= k < sp2.len() - 1 ==> sp2[k] == sp[k]);
                assert(all_digits(cur.push(c)) == (all_digits(cur) && is_d)) by {
                    if all_digits(cur) && is_d {
                        assert forall|j: int| 0 <= j < cur.push(c).len() implies is_digit(#[trigger] cur.push(c)[j]) by {
                            if j < cur.len() {
                                assert(cur.push(c)[j] == cur[j]);
                            }
                        }
                    } else if !is_d {
                        assert(cur.push(c)[cur.len() as int] == c);
                    } else {
                        let j = choose|j: int| 0 <= j < cur.len() && !is_digit(#[trigger] cur[j]);
                        assert(cur.push(c)[j] == cur[j]);
                    }
                }
                if cur.len() > 0 {
                    assert(cur.push(c)[0] == cur[0]);
                }
            }
            if cur_len == 0 {
                cur_lead_zero = c == '0';
            }
            cur_len = cur_len + 1;
            if is_d {
                if cur_digits {
                    let digit = (c as u32) - ('0' as u32);
                    proof {
                        lemma_push_digit_grows(cur, c);
                    }
                    if cur_val >= 256 {
                        cur_val = 256;
                    } else {
                        cur_val = cur_val * 10 + digit;
                        if cur_val > 256 {
                            cur_val = 256;
                        }
                    }
                }
            } else {
                cur_digits = false;
            }
        }
        i = i + 1;
    }
    proof {
        assert(s@.subrange(0, n as int) =~= s@);
        let sp = dot_fields(s@);
        let cur = sp.last();
        if count == 4 {
            assert(sp[3] == cur);
        }
    }
    let ok = cur_digits && 1 <= cur_len && cur_len <= 3 && !(cur_len > 1 && cur_lead_zero) && cur_val <= 255;
    if count == 4 && done_ok && ok {
        let a = [octets[0], octets[1], octets[2], cur_val as u8];
        proof {
            let sp = dot_fields(s@);
            assert(a@ =~= ipv4_octets(s@));
        }
        Some(a)
    } else {
        proof {
            let sp = dot_fields(s@);
            if sp.len() == 4 {
                if !ok {
                    assert(!is_octet_text(sp[3]));
                } else if !done_ok {
                    let k = choose|k: int| 0 <= k < sp.len() - 1 && !is_octet_text(#[trigger] sp[k]);
                    assert(!is_octet_text(sp[k]));
                }
            }
        }
        None
    }
}

} // verus!
