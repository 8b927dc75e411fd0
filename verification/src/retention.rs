//! Retention cleanup: deciding which historical log files to remove
//! from the generic log directory so that at most a fixed number of
//! them remain.
//!
//! The decision is a pure function of a directory listing. The
//! unverified shell reads the directory, hands the entries over, and
//! removes exactly the files named in the result.

use crate::text::ends_with;
use crate::text::lemma_lex_leq_connected;
use crate::text::lemma_lex_leq_reflexive;
use crate::text::lemma_lex_leq_total_ordering;
use crate::text::lemma_lex_leq_transitive;
use crate::text::lex_leq;
use crate::text::lex_leq_fn;
use crate::text::starts_with;
use crate::text::str_ends_with;
use crate::text::str_lex_leq;
use crate::text::str_starts_with;
use vstd::multiset::Multiset;
use vstd::prelude::*;
use vstd::relations::sorted_by;
use vstd::seq_lib::group_to_multiset_ensures;
use vstd::seq_lib::lemma_sorted_unique;

verus! {

broadcast use group_to_multiset_ensures;

/// How many historical log files retention leaves in place.
pub const KEEP_NUMBER_OF_FILES: usize = 20;

/// What a directory listing reports about one readable entry.
pub struct DirEntry {
    /// The entry's file name (the last path component alone).
    pub name: String,
    /// Whether the entry is a regular file.
    pub is_file: bool,
    /// Whether the entry is a symbolic link.
    pub is_symlink: bool,
}

/// An entry may be removed by retention iff it is a regular file, not a
/// symbolic link, and its name carries the binary's name as prefix and
/// the log file suffix.
pub open spec fn is_log_candidate(e: DirEntry, binary: Seq<char>) -> bool {
    e.is_file && !e.is_symlink && starts_with(e.name@, binary) && ends_with(e.name@, ".log"@)
}

/// The names of the candidate entries, in listing order.
pub open spec fn candidate_names(entries: Seq<DirEntry>, binary: Seq<char>) -> Seq<Seq<char>>
    decreases entries.len(),
{
    if entries.len() == 0 {
        Seq::empty()
    } else if is_log_candidate(entries.last(), binary) {
        candidate_names(entries.drop_last(), binary).push(entries.last().name@)
    } else {
        candidate_names(entries.drop_last(), binary)
    }
}

fn collect_candidates(binary_name: &str, entries: &Vec<DirEntry>) -> (r: Vec<String>)
    ensures
        r.deep_view() == candidate_names(entries@, binary_name@),
{
    let mut r: Vec<String> = Vec::new();
    let mut i: usize = 0;
    while i < entries.len()
        invariant
            0 <= i <= entries@.len(),
            r.deep_view() == candidate_names(entries@.take(i as int), binary_name@),
        decreases entries@.len() - i,
    {
        let e = &entries[i];
        let matches = e.is_file && !e.is_symlink && str_starts_with(e.name.as_str(), binary_name)
            && str_ends_with(e.name.as_str(), ".log");
        proof {
            assert(entries@.take(i + 1).drop_last() =~= entries@.take(i as int));
            assert(entries@.take(i + 1).last() == entries@[i as int]);
        }
        if matches {
            let ghost before = r.deep_view();
            r.push(e.name.clone());
            proof {
                assert(r.deep_view() =~= before.push(entries@[i as int].name@));
            }
        }
        i = i + 1;
    }
    proof {
        assert(entries@.take(entries@.len() as int) =~= entries@);
    }
    r
}

fn min_index(names: &Vec<String>) -> (r: usize)
    requires
        names@.len() > 0,
    ensures
        r < names@.len(),
        forall|t: int|
            0 <= t < names@.len() ==> lex_leq(names.deep_view()[r as int], names.deep_view()[t]),
{
    let mut j: usize = 0;
    let mut k: usize = 1;
    proof {
        lemma_lex_leq_reflexive(names.deep_view()[0]);
    }
    while k < names.len()
        invariant
            0 <= j < k <= names@.len(),
            forall|t: int| 0 <= t < k ==> lex_leq(names.deep_view()[j as int], names.deep_view()[t]),
        decreases names@.len() - k,
    {
        if str_lex_leq(names[k].as_str(), names[j].as_str()) {
            proof {
                let dv = names.deep_view();
                assert forall|t: int| 0 <= t < k + 1 implies lex_leq(dv[k as int], dv[t]) by {
                    if t < k {
                        lemma_lex_leq_transitive(dv[k as int], dv[j as int], dv[t]);
                    } else {
                        lemma_lex_leq_reflexive(dv[k as int]);
                    }
                }
            }
            j = k;
        } else {
            proof {
                let dv = names.deep_view();
                lemma_lex_leq_connected(dv[j as int], dv[k as int]);
            }
        }
        k = k + 1;
    }
    j
}

fn sort_names(names: Vec<String>) -> (r: Vec<String>)
    ensures
        r.deep_view() == names.deep_view().sort_by(lex_leq_fn()),
{
    let ghost orig = names.deep_view();
    let mut rest = names;
    let mut out: Vec<String> = Vec::new();
    proof {
        assert(out.deep_view() =~= Seq::<Seq<char>>::empty());
        assert(out.deep_view().to_multiset().add(rest.deep_view().to_multiset())
            =~= orig.to_multiset());
    }
    while rest.len() > 0
        invariant
            sorted_by(out.deep_view(), lex_leq_fn()),
            out.deep_view().to_multiset().add(rest.deep_view().to_multiset())
                == orig.to_multiset(),
            forall|x: int, y: int|
                0 <= x < out.deep_view().len() && 0 <= y < rest.deep_view().len() ==> lex_leq(
                    out.deep_view()[x],
                    rest.deep_view()[y],
                ),
        decreases rest@.len(),
    {
        let j = min_index(&rest);
        let ghost old_out = out.deep_view();
        let ghost old_rest = rest.deep_view();
        let m = rest.remove(j);
        out.push(m);
        proof {
            assert(rest.deep_view() =~= old_rest.remove(j as int));
            assert(out.deep_view() =~= old_out.push(old_rest[j as int]));
            let new_out = out.deep_view();
            let new_rest = rest.deep_view();
            assert forall|x: int, y: int|
                0 <= x < new_out.len() && 0 <= y < new_rest.len() implies lex_leq(
                new_out[x],
                new_rest[y],
            ) by {
                if y < j {
                    assert(new_rest[y] == old_rest[y]);
                } else {
                    assert(new_rest[y] == old_rest[y + 1]);
                }
                if x < old_out.len() {
                    assert(new_out[x] == old_out[x]);
                } else {
                    assert(new_out[x] == old_rest[j as int]);
                }
            }
            assert(sorted_by(new_out, lex_leq_fn())) by {
                assert forall|x: int, y: int| 0 <= x < y < new_out.len() implies lex_leq_fn()(
                    new_out[x],
                    new_out[y],
                ) by {
                    if y < old_out.len() {
                        assert(lex_leq_fn()(old_out[x], old_out[y]));
                    } else {
                        assert(new_out[y] == old_rest[j as int]);
                        assert(lex_leq(old_out[x], old_rest[j as int]));
                    }
                }
            }
            assert(new_out.to_multiset().add(new_rest.to_multiset()) =~= orig.to_multiset());
        }
    }
    proof {
        assert(rest.deep_view() =~= Seq::<Seq<char>>::empty());
        assert(rest.deep_view().to_multiset() =~= Multiset::<Seq<char>>::empty());
        assert(out.deep_view().to_multiset() =~= orig.to_multiset());
        lemma_lex_leq_total_ordering();
        orig.lemma_sort_by_ensures(lex_leq_fn());
        lemma_sorted_unique(out.deep_view(), orig.sort_by(lex_leq_fn()), lex_leq_fn());
        assert(out.deep_view() =~= orig.sort_by(lex_leq_fn()));
    }
    out
}

/// Decides which files retention removes from the generic log
/// directory. Only candidate entries — regular files, not symlinks,
/// named `<binary_name>*.log` — are ever removed; anything else is
/// ignored regardless of how many entries there are. When more than
/// [`KEEP_NUMBER_OF_FILES`] candidates exist, the excess is removed
/// from the lexicographically least names (the chronologically oldest,
/// by the timestamp naming convention), so exactly the
/// [`KEEP_NUMBER_OF_FILES`] greatest names remain.
pub fn cleanup_files_to_remove(binary_name: &str, entries: &Vec<DirEntry>) -> (r: Vec<String>)
    ensures
        ({
            let c = candidate_names(entries@, binary_name@);
            &&& c.len() <= KEEP_NUMBER_OF_FILES ==> r@.len() == 0
            &&& c.len() > KEEP_NUMBER_OF_FILES ==> r.deep_view() == c.sort_by(lex_leq_fn()).take(
                c.len() - KEEP_NUMBER_OF_FILES,
            )
            &&& forall|n: Seq<char>| r.deep_view().contains(n) ==> c.contains(n)
        }),
{
    let ghost c = candidate_names(entries@, binary_name@);
    let names = collect_candidates(binary_name, entries);
    if names.len() <= KEEP_NUMBER_OF_FILES {
        let empty: Vec<String> = Vec::new();
        proof {
            assert(empty.deep_view() =~= Seq::<Seq<char>>::empty());
        }
        return empty;
    }
    let excess = names.len() - KEEP_NUMBER_OF_FILES;
    let mut sorted = sort_names(names);
    proof {
        lemma_lex_leq_total_ordering();
        c.lemma_sort_by_ensures(lex_leq_fn());
        assert(sorted.deep_view().to_multiset().len() == c.to_multiset().len());
        assert(sorted.deep_view().len() == c.len());
    }
    let ghost s = sorted.deep_view();
    sorted.truncate(excess);
    proof {
        assert(sorted.deep_view() =~= s.take(excess as int));
        assert forall|n: Seq<char>| sorted.deep_view().contains(n) implies c.contains(n) by {
            let i = choose|i: int| 0 <= i < sorted.deep_view().len() && sorted.deep_view()[i] == n;
            assert(s[i] == n);
            assert(s.contains(n));
            assert(s.to_multiset().count(n) > 0);
            assert(c.to_multiset().count(n) > 0);
        }
    }
    sorted
}

/// Retention removes only the least candidate names: in the sorted
/// candidate list, every removed name (before the cut) is at most every
/// kept name (after the cut), so the names that remain are exactly the
/// greatest ones.
pub proof fn lemma_removed_below_kept(c: Seq<Seq<char>>, keep: int)
    requires
        0 <= keep <= c.len(),
    ensures
        forall|i: int, j: int|
            0 <= i < c.len() - keep <= j < c.len() ==> lex_leq(
                #[trigger] c.sort_by(lex_leq_fn())[i],
                #[trigger] c.sort_by(lex_leq_fn())[j],
            ),
{
    lemma_lex_leq_total_ordering();
    c.lemma_sort_by_ensures(lex_leq_fn());
    let s = c.sort_by(lex_leq_fn());
    assert(s.to_multiset().len() == c.to_multiset().len());
    assert(s.len() == c.len());
    assert forall|i: int, j: int| 0 <= i < c.len() - keep <= j < c.len() implies lex_leq(
        #[trigger] s[i],
        #[trigger] s[j],
    ) by {
        assert(lex_leq_fn()(s[i], s[j]));
    }
}

} // verus!
