//! The attribute micro-syntax of the ninth GTF column: semicolon-separated
//! clauses of the form `key "value"`, collected into a key/value mapping in
//! which the last occurrence of a duplicate key wins.

use vstd::prelude::*;

use crate::bytes::{bytes_eq, copy_bytes, split_byte, split_on, strip_quote_bytes, strip_quotes,
    trim, trim_bytes};

verus! {

/// The key/value pair denoted by one attribute clause, if any: a clause that
/// is exactly one space is an artifact of the trailing separator and yields
/// nothing; a clause without a quoted value yields nothing; otherwise the key
/// is the part before the first quote, trimmed, and the value is the part
/// between the first two quotes with any stray quote bytes removed.
pub open spec fn clause_pair(clause: Seq<u8>) -> Option<(Seq<u8>, Seq<u8>)> {
    if clause == seq![32u8] {
        None
    } else {
        let parts = split_on(trim(clause), 34);
        if parts.len() > 1 {
            Some((trim(parts[0]), strip_quotes(parts[1])))
        } else {
            None
        }
    }
}

/// The key/value pairs of a sequence of clauses, in clause order.
pub open spec fn attr_pairs(clauses: Seq<Seq<u8>>) -> Seq<(Seq<u8>, Seq<u8>)>
    decreases clauses.len(),
{
    if clauses.len() == 0 {
        Seq::<(Seq<u8>, Seq<u8>)>::empty()
    } else {
        let r = attr_pairs(clauses.drop_last());
        match clause_pair(clauses.last()) {
            Some(p) => r.push(p),
            None => r,
        }
    }
}

/// The mapping built by inserting the pairs in order: a later occurrence of
/// a key overwrites an earlier one.
pub open spec fn pairs_map(pairs: Seq<(Seq<u8>, Seq<u8>)>) -> Map<Seq<u8>, Seq<u8>>
    decreases pairs.len(),
{
    if pairs.len() == 0 {
        Map::<Seq<u8>, Seq<u8>>::empty()
    } else {
        pairs_map(pairs.drop_last()).insert(pairs.last().0, pairs.last().1)
    }
}

/// The attribute mapping denoted by a raw attribute column.
pub open spec fn attr_map(raw: Seq<u8>) -> Map<Seq<u8>, Seq<u8>> {
    pairs_map(attr_pairs(split_on(raw, 59)))
}

/// Parses one attribute clause.
pub fn parse_clause(clause: &Vec<u8>) -> (r: Option<(Vec<u8>, Vec<u8>)>)
    ensures
        match r {
            Some(p) => clause_pair(clause@) == Some((p.0@, p.1@)),
            None => clause_pair(clause@) is None,
        },
{
    if clause.len() == 1 && clause[0] == 32 {
        proof {
            assert(clause@ =~= seq![32u8]);
        }
        return None;
    }
    proof {
        assert(clause@ != seq![32u8]);
    }
    let trimmed = trim_bytes(clause);
    let parts = split_byte(&trimmed, 34);
    if parts.len() > 1 {
        proof {
            assert(parts.deep_view()[0] =~= parts@[0]@);
            assert(parts.deep_view()[1] =~= parts@[1]@);
        }
        let key = trim_bytes(&parts[0]);
        let value = strip_quote_bytes(&parts[1]);
        Some((key, value))
    } else {
        None
    }
}

/// Parses the raw attribute column into its key/value pairs, in clause
/// order, keeping duplicates.
pub fn parse_attributes(raw: &Vec<u8>) -> (pairs: Vec<(Vec<u8>, Vec<u8>)>)
    ensures
        pairs.deep_view() == attr_pairs(split_on(raw@, 59)),
{
    let clauses = split_byte(raw, 59);
    let ghost cs = clauses.deep_view();
    let mut pairs: Vec<(Vec<u8>, Vec<u8>)> = Vec::new();
    let mut i: usize = 0;
    proof {
        assert(cs.take(0) =~= Seq::<Seq<u8>>::empty());
        assert(pairs.deep_view() =~~= attr_pairs(cs.take(0)));
    }
    while i < clauses.len()
        invariant
            i <= clauses.len(),
            clauses.deep_view() == cs,
            cs == split_on(raw@, 59),
            pairs.deep_view() == attr_pairs(cs.take(i as int)),
        decreases clauses.len() - i,
    {
        let ghost old_pairs = pairs.deep_view();
        proof {
            assert(clauses.deep_view()[i as int] =~= clauses@[i as int]@);
        }
        match parse_clause(&clauses[i]) {
            Some(p) => {
                let ghost pv = (p.0@, p.1@);
                pairs.push(p);
                proof {
                    assert(pairs.deep_view() =~~= old_pairs.push(pv));
                }
            },
            None => {},
        }
        i = i + 1;
        proof {
            let t = cs.take(i as int);
            assert(t.drop_last() =~= cs.take(i as int - 1));
            assert(t.last() == cs[i as int - 1]);
        }
    }
    proof {
        assert(cs.take(cs.len() as int) =~= cs);
    }
    pairs
}

proof fn lemma_pairs_map_prefix(ps: Seq<(Seq<u8>, Seq<u8>)>, k: Seq<u8>, n: int)
    requires
        0 <= n <= ps.len(),
        forall|idx: int| n <= idx < ps.len() ==> ps[idx].0 != k,
    ensures
        pairs_map(ps).contains_key(k) == pairs_map(ps.take(n)).contains_key(k),
        pairs_map(ps).contains_key(k) ==> pairs_map(ps)[k] == pairs_map(ps.take(n))[k],
    decreases ps.len() - n,
{
    if n == ps.len() {
        assert(ps.take(n) =~= ps);
    } else {
        lemma_pairs_map_prefix(ps, k, n + 1);
        let t = ps.take(n + 1);
        assert(t.drop_last() =~= ps.take(n));
        assert(t.last() == ps[n]);
        assert(ps[n].0 != k);
    }
}

/// Looks a key up among the parsed pairs; the last occurrence of the key
/// wins, as map insertion order demands.
pub fn attr_get(pairs: &Vec<(Vec<u8>, Vec<u8>)>, key: &Vec<u8>) -> (r: Option<Vec<u8>>)
    ensures
        match r {
            Some(v) => pairs_map(pairs.deep_view()).contains_key(key@) && v@ == pairs_map(
                pairs.deep_view(),
            )[key@],
            None => !pairs_map(pairs.deep_view()).contains_key(key@),
        },
{
    let ghost dv = pairs.deep_view();
    let mut j: usize = pairs.len();
    while j > 0
        invariant
            j <= pairs.len(),
            pairs.deep_view() == dv,
            forall|idx: int| j <= idx < dv.len() ==> dv[idx].0 != key@,
        decreases j,
    {
        j = j - 1;
        proof {
            assert(dv[j as int].0 =~= pairs@[j as int].0@);
        }
        if bytes_eq(&pairs[j].0, key) {
            proof {
                lemma_pairs_map_prefix(dv, key@, j + 1);
                let t = dv.take(j + 1);
                assert(t.drop_last() =~= dv.take(j as int));
                assert(t.last() == dv[j as int]);
                assert(dv[j as int].1 =~= pairs@[j as int].1@);
            }
            return Some(copy_bytes(&pairs[j].1));
        }
    }
    proof {
        lemma_pairs_map_prefix(dv, key@, 0);
        assert(dv.take(0) =~= Seq::<(Seq<u8>, Seq<u8>)>::empty());
    }
    None
}

} // verus!
