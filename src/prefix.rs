use vstd::prelude::*;

use crate::chars::chars_of;
use vstd::slice::slice_subrange;

verus! {

/// Address family of a network prefix.
#[derive(Clone, Copy, Debug, PartialEq, Eq, Structural)]
pub enum Family {
    V4,
    V6,
}

/// An address and a prefix length (a CIDR block). Bits beyond the prefix
/// length are kept as they came.
#[derive(Clone, Copy, Debug, PartialEq, Eq, Structural)]
#[allow(inconsistent_fields)]
pub enum NetworkPrefix {
    V4 { addr: u32, len: u8 },
    V6 { addr: u128, len: u8 },
}

/// Number of address bits of a family.
pub open spec fn width(f: Family) -> nat {
    match f {
        Family::V4 => 32,
        Family::V6 => 128,
    }
}

impl NetworkPrefix {
    pub open spec fn spec_family(self) -> Family {
        match self {
            NetworkPrefix::V4 { .. } => Family::V4,
            NetworkPrefix::V6 { .. } => Family::V6,
        }
    }

    pub open spec fn spec_len(self) -> nat {
        match self {
            NetworkPrefix::V4 { len, .. } => len as nat,
            NetworkPrefix::V6 { len, .. } => len as nat,
        }
    }

    /// The prefix length fits the address width.
    pub open spec fn wf(self) -> bool {
        self.spec_len() <= width(self.spec_family())
    }

    pub fn family(&self) -> (r: Family)
        ensures
            r == self.spec_family(),
    {
        match self {
            NetworkPrefix::V4 { .. } => Family::V4,
            NetworkPrefix::V6 { .. } => Family::V6,
        }
    }

    pub fn prefix_len(&self) -> (r: u8)
        ensures
            r as nat == self.spec_len(),
    {
        match self {
            NetworkPrefix::V4 { len, .. } => *len,
            NetworkPrefix::V6 { len, .. } => *len,
        }
    }

    /// Canonical `address/length` text of the prefix.
    pub fn to_text(&self) -> (r: String)
        requires
            self.wf(),
        ensures
            r@ == cidr_text(*self),
    {
        render_cidr(self)
    }
}

/// What `IpNetwork::from_str` of the ipnetwork crate makes of a text.
pub uninterp spec fn network_of(s: Seq<char>) -> Option<NetworkPrefix>;

/// What the `Display` impl of ipnetwork's `IpNetwork` writes for a prefix.
pub uninterp spec fn cidr_text(p: NetworkPrefix) -> Seq<char>;

/// Whitespace in the sense of `char::is_whitespace` (the Unicode
/// White_Space property).
pub open spec fn is_space(c: char) -> bool {
    ||| ('\u{9}' <= c && c <= '\u{d}')
    ||| c == ' '
    ||| c == '\u{85}'
    ||| c == '\u{a0}'
    ||| c == '\u{1680}'
    ||| ('\u{2000}' <= c && c <= '\u{200a}')
    ||| c == '\u{2028}'
    ||| c == '\u{2029}'
    ||| c == '\u{202f}'
    ||| c == '\u{205f}'
    ||| c == '\u{3000}'
}

pub open spec fn trim_start(s: Seq<char>) -> Seq<char>
    decreases s.len(),
{
    if s.len() > 0 && is_space(s[0]) {
        trim_start(s.drop_first())
    } else {
        s
    }
}

pub open spec fn trim_end(s: Seq<char>) -> Seq<char>
    decreases s.len(),
{
    if s.len() > 0 && is_space(s.last()) {
        trim_end(s.drop_last())
    } else {
        s
    }
}

/// The text without leading and trailing whitespace.
pub open spec fn trim(s: Seq<char>) -> Seq<char> {
    trim_end(trim_start(s))
}

/// The text after the first `/`; empty where there is none.
pub open spec fn after_slash(s: Seq<char>) -> Seq<char>
    decreases s.len(),
{
    if s.len() == 0 {
        s
    } else if s[0] == '/' {
        s.drop_first()
    } else {
        after_slash(s.drop_first())
    }
}

pub open spec fn is_digit(c: char) -> bool {
    '0' <= c && c <= '9'
}

/// A non-empty run of decimal digits.
pub open spec fn is_number(s: Seq<char>) -> bool {
    s.len() > 0 && forall|i: int| 0 <= i < s.len() ==> is_digit(#[trigger] s[i])
}

pub open spec fn decimal_value(s: Seq<char>) -> nat
    decreases s.len(),
{
    if s.len() == 0 {
        0
    } else {
        decimal_value(s.drop_last()) * 10 + (s.last() as nat - '0' as nat) as nat
    }
}

/// What one feed line yields: nothing for a blank line, for a line without
/// a `/` followed by a decimal length, or for what ipnetwork refuses.
pub open spec fn line_prefix(line: Seq<char>) -> Option<NetworkPrefix> {
    let t = trim(line);
    if t.len() == 0 || !is_number(after_slash(t)) {
        None
    } else {
        network_of(t)
    }
}

/// Relies on `IpNetwork::from_str` of ipnetwork: an accepted prefix length
/// never exceeds the address width, and a length written in decimal digits
/// after the one `/` is taken as written.
#[verifier::external_body]
fn parse_network(token: &[char]) -> (r: Option<NetworkPrefix>)
    ensures
        r == network_of(token@),
        r matches Some(p) ==> p.wf(),
        r matches Some(p) ==> (is_number(after_slash(token@)) ==> p.spec_len() == decimal_value(
            after_slash(token@),
        )),
{
    let text: String = token.iter().collect();
    match text.parse::<ipnetwork::IpNetwork>() {
        Ok(ipnetwork::IpNetwork::V4(n)) => Some(NetworkPrefix::V4 { addr: u32::from(n.ip()), len: n.prefix() }),
        Ok(ipnetwork::IpNetwork::V6(n)) => Some(NetworkPrefix::V6 { addr: u128::from(n.ip()), len: n.prefix() }),
        Err(_) => None,
    }
}

/// Relies on the `Display` impl of ipnetwork's `IpNetwork`.
#[verifier::external_body]
fn render_cidr(p: &NetworkPrefix) -> (r: String)
    requires
        p.wf(),
    ensures
        r@ == cidr_text(*p),
{
    let net = match *p {
        NetworkPrefix::V4 { addr, len } => ipnetwork::IpNetwork::new(addr.to_be_bytes().into(), len),
        NetworkPrefix::V6 { addr, len } => ipnetwork::IpNetwork::new(addr.to_be_bytes().into(), len),
    };
    net.unwrap().to_string()
}


fn space(c: char) -> (r: bool)
    ensures
        r == is_space(c),
{
    ('\u{9}' <= c && c <= '\u{d}') || c == ' ' || c == '\u{85}' || c == '\u{a0}' || c
        == '\u{1680}' || ('\u{2000}' <= c && c <= '\u{200a}') || c == '\u{2028}' || c
        == '\u{2029}' || c == '\u{202f}' || c == '\u{205f}' || c == '\u{3000}'
}

/// The prefix that the line `s[a..b]` yields, as `line_prefix` says.
pub(crate) fn prefix_in(s: &[char], a: usize, b: usize) -> (r: Option<NetworkPrefix>)
    requires
        a <= b <= s@.len(),
    ensures
        r == line_prefix(s@.subrange(a as int, b as int)),
        r matches Some(p) ==> p.wf(),
        r matches Some(p) ==> p.spec_len() == decimal_value(
            after_slash(trim(s@.subrange(a as int, b as int))),
        ),
{
    let ghost line = s@.subrange(a as int, b as int);
    let mut i: usize = a;
    while i < b && space(s[i])
        invariant
            a <= i <= b <= s@.len(),
            line == s@.subrange(a as int, b as int),
            trim_start(line) == trim_start(s@.subrange(i as int, b as int)),
        decreases b - i,
    {
        assert(s@.subrange(i as int, b as int).drop_first() =~= s@.subrange(i + 1, b as int));
        i = i + 1;
    }
    assert(trim_start(s@.subrange(i as int, b as int)) == s@.subrange(i as int, b as int));
    let mut j: usize = b;
    while j > i && space(s[j - 1])
        invariant
            a <= i <= j <= b <= s@.len(),
            line == s@.subrange(a as int, b as int),
            trim(line) == trim_end(s@.subrange(i as int, j as int)),
        decreases j - i,
    {
        assert(s@.subrange(i as int, j as int).drop_last() =~= s@.subrange(i as int, j - 1));
        j = j - 1;
    }
    let ghost t = s@.subrange(i as int, j as int);
    assert(trim(line) == t);
    if i == j {
        return None;
    }
    let mut k: usize = i;
    while k < j && s[k] != '/'
        invariant
            i <= k <= j <= s@.len(),
            t == s@.subrange(i as int, j as int),
            line == s@.subrange(a as int, b as int),
            trim(line) == t,
            t.len() > 0,
            after_slash(t) == after_slash(s@.subrange(k as int, j as int)),
        decreases j - k,
    {
        assert(s@.subrange(k as int, j as int).drop_first() =~= s@.subrange(k + 1, j as int));
        k = k + 1;
    }
    if k == j {
        assert(after_slash(t).len() == 0);
        return None;
    }
    assert(s@.subrange(k as int, j as int).drop_first() =~= s@.subrange(k + 1, j as int));
    let ghost tail = s@.subrange(k + 1, j as int);
    assert(after_slash(t) == tail);
    if k + 1 == j {
        return None;
    }
    let mut d: usize = k + 1;
    while d < j
        invariant
            k + 1 <= d <= j <= s@.len(),
            tail == s@.subrange(k + 1, j as int),
            line == s@.subrange(a as int, b as int),
            t == s@.subrange(i as int, j as int),
            trim(line) == t,
            t.len() > 0,
            after_slash(t) == tail,
            forall|m: int| k + 1 <= m < d ==> is_digit(#[trigger] s@[m]),
        decreases j - d,
    {
        if !('0' <= s[d] && s[d] <= '9') {
            assert(tail[d - (k + 1)] == s@[d as int]);
            assert(!is_number(tail));
            return None;
        }
        d = d + 1;
    }
    assert(is_number(tail)) by {
        assert forall|m: int| 0 <= m < tail.len() implies is_digit(#[trigger] tail[m]) by {
            assert(tail[m] == s@[k + 1 + m]);
        }
    }
    parse_network(slice_subrange(s, i, j))
}

/// Reads one feed line as a network prefix. Blank lines, lines without a
/// `/` and a decimal prefix length, and lines that ipnetwork refuses
/// (a bad address, a length beyond the address width) yield nothing.
pub fn parse_line(line: &str) -> (r: Option<NetworkPrefix>)
    ensures
        r == line_prefix(line@),
        trim(line@).len() == 0 ==> r is None,
        r matches Some(p) ==> p.wf(),
        r matches Some(p) ==> p.spec_len() == decimal_value(after_slash(trim(line@))),
{
    let cs = chars_of(line);
    assert(cs@.subrange(0, cs@.len() as int) =~= cs@);
    prefix_in(cs.as_slice(), 0, cs.len())
}

/// A line that is blank once trimmed yields no prefix (and no error).
pub proof fn lemma_blank_line(line: Seq<char>)
    requires
        trim(line).len() == 0,
    ensures
        line_prefix(line) is None,
{
}

proof fn lemma_no_slash(s: Seq<char>)
    requires
        !s.contains('/'),
    ensures
        after_slash(s).len() == 0,
    decreases s.len(),
{
    if s.len() > 0 {
        assert(s[0] != '/');
        assert forall|i: int| 0 <= i < s.drop_first().len() implies s.drop_first()[i] != '/' by {
            assert(s.drop_first()[i] == s[i + 1]);
        }
        lemma_no_slash(s.drop_first());
    }
}

/// A line without a `/`, or whose text after the first `/` is not a
/// non-empty run of decimal digits, yields no prefix.
pub proof fn lemma_malformed_line(line: Seq<char>)
    requires
        !trim(line).contains('/') || !is_number(after_slash(trim(line))),
    ensures
        line_prefix(line) is None,
{
    if !trim(line).contains('/') {
        lemma_no_slash(trim(line));
    }
}

} // verus!
