use vstd::prelude::*;

use crate::directory::{CountryDirectory, EntryView, all_prefixes, directory_wf, entry_prefixes};
use crate::prefix::{Family, NetworkPrefix, cidr_text};

verus! {

/// Direction of the rule set: let only the listed space in, or keep it out.
#[derive(Clone, Copy, Debug, PartialEq, Eq, Structural)]
pub enum Policy {
    Allow,
    Block,
}

impl Policy {
    pub open spec fn spec_name(self) -> Seq<char> {
        match self {
            Policy::Allow => "allow"@,
            Policy::Block => "block"@,
        }
    }

    /// Lower-case name of the policy, as used in file names.
    pub fn name(&self) -> (r: String)
        ensures
            r@ == self.spec_name(),
    {
        match self {
            Policy::Allow => String::from_str("allow"),
            Policy::Block => String::from_str("block"),
        }
    }
}

/// The element lines of a set: one indented `prefix,` line per prefix.
pub open spec fn element_lines(ps: Seq<NetworkPrefix>) -> Seq<char>
    decreases ps.len(),
{
    if ps.len() == 0 {
        Seq::empty()
    } else {
        element_lines(ps.drop_last()) + "    "@ + cidr_text(ps.last()) + ",\n"@
    }
}

pub open spec fn table_open() -> Seq<char> {
    "table inet filter {\n"@
}

pub open spec fn ipv4_set_open() -> Seq<char> {
    "  set country_ipv4 { type ipv4_addr; flags interval; elements = {\n"@
}

pub open spec fn ipv6_set_open() -> Seq<char> {
    "  set country_ipv6 { type ipv6_addr; flags interval; elements = {\n"@
}

pub open spec fn set_close() -> Seq<char> {
    "  } }\n"@
}

pub open spec fn chain_open() -> Seq<char> {
    "  chain input {\n    type filter hook input priority 0;\n"@
}

pub open spec fn ipv4_rule(p: Policy) -> Seq<char> {
    match p {
        Policy::Block => "    ip saddr @country_ipv4 drop;\n"@,
        Policy::Allow => "    ip saddr @country_ipv4 accept;\n"@,
    }
}

pub open spec fn ipv6_rule(p: Policy) -> Seq<char> {
    match p {
        Policy::Block => "    ip6 saddr @country_ipv6 drop;\n"@,
        Policy::Allow => "    ip6 saddr @country_ipv6 accept;\n"@,
    }
}

/// The catch-all rule, the opposite of what the two set rules do.
pub open spec fn default_rule(p: Policy) -> Seq<char> {
    match p {
        Policy::Block => "    accept;\n"@,
        Policy::Allow => "    drop;\n"@,
    }
}

pub open spec fn chain_close() -> Seq<char> {
    "  }\n}\n"@
}

/// The table up to the chain: both address sets.
pub open spec fn sets_text(v4: Seq<NetworkPrefix>, v6: Seq<NetworkPrefix>) -> Seq<char> {
    table_open() + ipv4_set_open() + element_lines(v4) + set_close() + ipv6_set_open()
        + element_lines(v6) + set_close()
}

/// The input chain: the IPv4 set rule, the IPv6 set rule, the default.
pub open spec fn chain_text(p: Policy) -> Seq<char> {
    chain_open() + ipv4_rule(p) + ipv6_rule(p) + default_rule(p) + chain_close()
}

/// The whole rule-set file for the given set contents and policy.
pub open spec fn rules_document(v4: Seq<NetworkPrefix>, v6: Seq<NetworkPrefix>, p: Policy) -> Seq<
    char,
> {
    sets_text(v4, v6) + chain_text(p)
}

/// The rule-set file for a directory: its IPv4 and IPv6 prefixes, entry
/// after entry, with no duplicate removed.
pub open spec fn directory_rules(es: Seq<EntryView>, p: Policy) -> Seq<char> {
    rules_document(all_prefixes(es, Family::V4), all_prefixes(es, Family::V6), p)
}

/// Appends the element lines of `ps` to `out`.
fn push_elements(out: &mut String, ps: &Vec<NetworkPrefix>)
    requires
        forall|k: int| 0 <= k < ps@.len() ==> (#[trigger] ps@[k]).wf(),
    ensures
        final(out)@ == old(out)@ + element_lines(ps@),
{
    let mut i: usize = 0;
    while i < ps.len()
        invariant
            i <= ps@.len(),
            forall|k: int| 0 <= k < ps@.len() ==> (#[trigger] ps@[k]).wf(),
            out@ == old(out)@ + element_lines(ps@.take(i as int)),
        decreases ps@.len() - i,
    {
        let text = ps[i].to_text();
        out.append("    ");
        out.append(text.as_str());
        out.append(",\n");
        assert(ps@.take(i + 1).drop_last() =~= ps@.take(i as int));
        i = i + 1;
    }
    assert(ps@.take(i as int) =~= ps@);
}

/// Renders the rule-set file: a table with one interval set per address
/// family holding every prefix of the directory in its order, and an input
/// chain whose two set rules come before the catch-all rule.
pub fn render_rules(dir: &CountryDirectory, policy: Policy) -> (r: String)
    requires
        dir.wf(),
    ensures
        r@ == directory_rules(dir@, policy),
{
    let v4 = dir.prefixes(Family::V4);
    let v6 = dir.prefixes(Family::V6);
    proof {
        lemma_all_prefixes_family(dir@, Family::V4);
        lemma_all_prefixes_family(dir@, Family::V6);
    }
    let mut out = String::from_str("table inet filter {\n");
    out.append("  set country_ipv4 { type ipv4_addr; flags interval; elements = {\n");
    push_elements(&mut out, &v4);
    out.append("  } }\n");
    out.append("  set country_ipv6 { type ipv6_addr; flags interval; elements = {\n");
    push_elements(&mut out, &v6);
    out.append("  } }\n");
    out.append("  chain input {\n    type filter hook input priority 0;\n");
    match policy {
        Policy::Block => {
            out.append("    ip saddr @country_ipv4 drop;\n");
            out.append("    ip6 saddr @country_ipv6 drop;\n");
            out.append("    accept;\n");
        },
        Policy::Allow => {
            out.append("    ip saddr @country_ipv4 accept;\n");
            out.append("    ip6 saddr @country_ipv6 accept;\n");
            out.append("    drop;\n");
        },
    }
    out.append("  }\n}\n");
    assert(out@ =~= directory_rules(dir@, policy));
    out
}

proof fn lemma_all_prefixes_family(es: Seq<EntryView>, f: Family)
    requires
        directory_wf(es),
    ensures
        forall|k: int|
            0 <= k < all_prefixes(es, f).len() ==> (#[trigger] all_prefixes(es, f)[k]).wf()
                && all_prefixes(es, f)[k].spec_family() == f,
    decreases es.len(),
{
    if es.len() > 0 {
        assert(directory_wf(es.drop_last()));
        lemma_all_prefixes_family(es.drop_last(), f);
        let a = all_prefixes(es.drop_last(), f);
        let b = entry_prefixes(es.last(), f);
        assert(crate::directory::entry_wf(es[es.len() - 1]));
        assert forall|k: int| 0 <= k < all_prefixes(es, f).len() implies (#[trigger] all_prefixes(
            es,
            f,
        )[k]).wf() && all_prefixes(es, f)[k].spec_family() == f by {
            if k >= a.len() {
                assert(all_prefixes(es, f)[k] == b[k - a.len()]);
            } else {
                assert(all_prefixes(es, f)[k] == a[k]);
            }
        }
    }
}

/// With `c` prefixes of family `f` in every entry, the flattened sequence
/// holds `n * c` prefixes, and prefix `j` of entry `i` stands at `i * c + j`.
proof fn lemma_flatten_uniform(es: Seq<EntryView>, f: Family, c: nat)
    requires
        forall|i: int| 0 <= i < es.len() ==> (#[trigger] entry_prefixes(es[i], f)).len() == c,
    ensures
        all_prefixes(es, f).len() == es.len() * c,
        forall|i: int, j: int|
            0 <= i < es.len() && 0 <= j < c ==> all_prefixes(es, f)[i * c + j]
                == #[trigger] entry_prefixes(es[i], f)[j],
    decreases es.len(),
{
    if es.len() > 0 {
        let n = es.len();
        let init = es.drop_last();
        assert forall|i: int| 0 <= i < init.len() implies (#[trigger] entry_prefixes(
            init[i],
            f,
        )).len() == c by {
            assert(init[i] == es[i]);
        }
        lemma_flatten_uniform(init, f, c);
        let a = all_prefixes(init, f);
        let last = entry_prefixes(es[n - 1], f);
        assert(last.len() == c);
        assert((n - 1) * c + c == n * c) by (nonlinear_arith);
        assert forall|i: int, j: int| 0 <= i < es.len() && 0 <= j < c implies all_prefixes(es, f)[i
            * c + j] == #[trigger] entry_prefixes(es[i], f)[j] by {
            if i < n - 1 {
                assert(i * c + j < (n - 1) * c) by (nonlinear_arith)
                    requires
                        0 <= i < n - 1,
                        0 <= j < c,
                ;
                assert(0 <= i * c) by (nonlinear_arith)
                    requires
                        0 <= i,
                ;
                assert(init[i] == es[i]);
                assert(all_prefixes(es, f)[i * c + j] == a[i * c + j]);
            } else {
                assert(i * c == (n - 1) * c);
                assert(all_prefixes(es, f)[i * c + j] == last[j]);
            }
        }
    }
}

/// For a directory whose `n` entries each hold `a` IPv4 and `b` IPv6
/// prefixes, the rule set lists `n * a` IPv4 and `n * b` IPv6 elements:
/// prefix `j` of entry `i` is element `i * a + j` (resp. `i * b + j`), so the
/// sets hold every prefix of every entry, duplicates included.
pub proof fn lemma_sets_hold_every_prefix(es: Seq<EntryView>, a: nat, b: nat, p: Policy)
    requires
        forall|i: int| 0 <= i < es.len() ==> (#[trigger] es[i]).1.len() == a && es[i].2.len() == b,
    ensures
        directory_rules(es, p) == rules_document(
            all_prefixes(es, Family::V4),
            all_prefixes(es, Family::V6),
            p,
        ),
        all_prefixes(es, Family::V4).len() == es.len() * a,
        all_prefixes(es, Family::V6).len() == es.len() * b,
        forall|i: int, j: int|
            0 <= i < es.len() && 0 <= j < a ==> all_prefixes(es, Family::V4)[i * a + j]
                == #[trigger] es[i].1[j],
        forall|i: int, j: int|
            0 <= i < es.len() && 0 <= j < b ==> all_prefixes(es, Family::V6)[i * b + j]
                == #[trigger] es[i].2[j],
{
    assert forall|i: int| 0 <= i < es.len() implies (#[trigger] entry_prefixes(
        es[i],
        Family::V4,
    )).len() == a by {}
    assert forall|i: int| 0 <= i < es.len() implies (#[trigger] entry_prefixes(
        es[i],
        Family::V6,
    )).len() == b by {}
    lemma_flatten_uniform(es, Family::V4, a);
    lemma_flatten_uniform(es, Family::V6, b);
    assert forall|i: int, j: int| 0 <= i < es.len() && 0 <= j < a implies all_prefixes(
        es,
        Family::V4,
    )[i * a + j] == #[trigger] es[i].1[j] by {
        assert(entry_prefixes(es[i], Family::V4)[j] == es[i].1[j]);
    }
    assert forall|i: int, j: int| 0 <= i < es.len() && 0 <= j < b implies all_prefixes(
        es,
        Family::V6,
    )[i * b + j] == #[trigger] es[i].2[j] by {
        assert(entry_prefixes(es[i], Family::V6)[j] == es[i].2[j]);
    }
}

/// Under the block policy the chain is, whatever the directory holds: drop
/// on IPv4 set match, drop on IPv6 set match, then accept, and it closes
/// the file.
pub proof fn lemma_block_rule_order(es: Seq<EntryView>)
    ensures
        directory_rules(es, Policy::Block) == sets_text(
            all_prefixes(es, Family::V4),
            all_prefixes(es, Family::V6),
        ) + chain_open() + "    ip saddr @country_ipv4 drop;\n"@
            + "    ip6 saddr @country_ipv6 drop;\n"@ + "    accept;\n"@ + chain_close(),
{
}

/// Under the allow policy the chain is, whatever the directory holds:
/// accept on IPv4 set match, accept on IPv6 set match, then drop, and it
/// closes the file.
pub proof fn lemma_allow_rule_order(es: Seq<EntryView>)
    ensures
        directory_rules(es, Policy::Allow) == sets_text(
            all_prefixes(es, Family::V4),
            all_prefixes(es, Family::V6),
        ) + chain_open() + "    ip saddr @country_ipv4 accept;\n"@
            + "    ip6 saddr @country_ipv6 accept;\n"@ + "    drop;\n"@ + chain_close(),
{
}

/// The rule-set text depends on the directory's contents and the policy
/// alone: equal contents give byte-identical files.
pub proof fn lemma_rules_reproducible(d1: CountryDirectory, d2: CountryDirectory, p: Policy)
    requires
        d1@ == d2@,
    ensures
        directory_rules(d1@, p) == directory_rules(d2@, p),
{
}

} // verus!
