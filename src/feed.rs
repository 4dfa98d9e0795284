use vstd::prelude::*;

use crate::chars::chars_of;
use crate::prefix::{Family, NetworkPrefix, line_prefix, prefix_in};

verus! {

/// The lines of a text, split at each `\n` (the last one may be empty).
pub open spec fn split_lines(s: Seq<char>) -> Seq<Seq<char>>
    decreases s.len(),
{
    if s.len() == 0 {
        seq![Seq::empty()]
    } else {
        let init = split_lines(s.drop_last());
        if s.last() == '\n' {
            init.push(Seq::empty())
        } else {
            init.update(init.len() - 1, init.last().push(s.last()))
        }
    }
}

/// The prefix that a line yields, kept only where it is of the family `f`.
pub open spec fn kept(o: Option<NetworkPrefix>, f: Family) -> Seq<NetworkPrefix> {
    match o {
        Some(p) => if p.spec_family() == f {
            seq![p]
        } else {
            Seq::empty()
        },
        None => Seq::empty(),
    }
}

/// The prefixes of family `f` that the lines yield, in line order.
pub open spec fn prefixes_of_lines(lines: Seq<Seq<char>>, f: Family) -> Seq<NetworkPrefix>
    decreases lines.len(),
{
    if lines.len() == 0 {
        Seq::empty()
    } else {
        prefixes_of_lines(lines.drop_last(), f) + kept(line_prefix(lines.last()), f)
    }
}

/// The prefixes of family `f` that a feed body lists.
pub open spec fn feed_prefixes(body: Seq<char>, f: Family) -> Seq<NetworkPrefix> {
    prefixes_of_lines(split_lines(body), f)
}

pub open spec fn zone_base(f: Family) -> Seq<char> {
    match f {
        Family::V4 => "https://www.ipdeny.com/ipblocks/data/aggregated/"@,
        Family::V6 => "https://www.ipdeny.com/ipv6/ipaddresses/aggregated/"@,
    }
}

/// Address of the aggregated zone feed of one country and family.
pub open spec fn zone_url(f: Family, code: Seq<char>) -> Seq<char> {
    zone_base(f) + code + "-aggregated.zone"@
}

proof fn lemma_prefixes_push(lines: Seq<Seq<char>>, line: Seq<char>, f: Family)
    ensures
        prefixes_of_lines(lines.push(line), f) == prefixes_of_lines(lines, f) + kept(
            line_prefix(line),
            f,
        ),
{
    assert(lines.push(line).drop_last() =~= lines);
}

/// The prefixes of family `family` listed in a feed body, in the order of
/// its lines. Lines that yield nothing, or a prefix of the other family,
/// are passed over; nothing in the body makes this fail.
pub fn parse_feed(body: &str, family: Family) -> (r: Vec<NetworkPrefix>)
    ensures
        r@ == feed_prefixes(body@, family),
        forall|k: int|
            0 <= k < r@.len() ==> (#[trigger] r@[k]).wf() && r@[k].spec_family() == family,
{
    let cs = chars_of(body);
    let n = cs.len();
    let mut out: Vec<NetworkPrefix> = Vec::new();
    let mut start: usize = 0;
    let mut i: usize = 0;
    let ghost mut done: Seq<Seq<char>> = Seq::empty();
    assert(cs@.take(0) =~= Seq::<char>::empty());
    assert(cs@.subrange(0, 0) =~= Seq::<char>::empty());
    while i < n
        invariant
            n == cs@.len(),
            cs@ == body@,
            start <= i <= n,
            split_lines(cs@.take(i as int)) == done.push(cs@.subrange(start as int, i as int)),
            out@ == prefixes_of_lines(done, family),
            forall|k: int|
                0 <= k < out@.len() ==> (#[trigger] out@[k]).wf() && out@[k].spec_family()
                    == family,
        decreases n - i,
    {
        let ghost cur = cs@.subrange(start as int, i as int);
        assert(cs@.take(i + 1).drop_last() =~= cs@.take(i as int));
        assert(cs@.take(i + 1).last() == cs@[i as int]);
        if cs[i] == '\n' {
            let o = prefix_in(cs.as_slice(), start, i);
            proof {
                lemma_prefixes_push(done, cur, family);
            }
            if let Some(p) = o {
                if p.family() == family {
                    out.push(p);
                }
            }
            assert(out@ =~= prefixes_of_lines(done.push(cur), family));
            proof {
                done = done.push(cur);
            }
            start = i + 1;
            assert(cs@.subrange(start as int, i + 1) =~= Seq::<char>::empty());
        } else {
            assert(cs@.subrange(start as int, i + 1) =~= cur.push(cs@[i as int]));
            assert(done.push(cur).update(done.len() as int, cur.push(cs@[i as int])) =~= done.push(
                cs@.subrange(start as int, i + 1),
            ));
        }
        i = i + 1;
    }
    assert(cs@.take(n as int) =~= cs@);
    let ghost last = cs@.subrange(start as int, n as int);
    let o = prefix_in(cs.as_slice(), start, n);
    proof {
        lemma_prefixes_push(done, last, family);
    }
    if let Some(p) = o {
        if p.family() == family {
            out.push(p);
        }
    }
    assert(out@ =~= prefixes_of_lines(done.push(last), family));
    out
}

/// Address of the aggregated zone feed of `code` for `family`.
pub fn feed_url(family: Family, code: &str) -> (r: String)
    ensures
        r@ == zone_url(family, code@),
{
    let mut url = match family {
        Family::V4 => String::from_str("https://www.ipdeny.com/ipblocks/data/aggregated/"),
        Family::V6 => String::from_str("https://www.ipdeny.com/ipv6/ipaddresses/aggregated/"),
    };
    url.append(code);
    url.append("-aggregated.zone");
    url
}

} // verus!
