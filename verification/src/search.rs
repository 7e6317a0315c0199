//! The repository-search aggregator: query validation before any network
//! call, merging of the providers' answers with failed providers dropped,
//! ranking by star count, and the rendered result list.

use vstd::prelude::*;

verus! {

use crate::errors::RepoError;
use crate::provider::RepoSearchResult;
use crate::strutil::dec_digits;
use vstd::multiset::Multiset;

/// Whether a character has the Unicode white-space property. A function of
/// the character alone.
pub uninterp spec fn is_whitespace_char(c: char) -> bool;

/// Relies on std's `char::is_whitespace`: the Unicode white-space property,
/// a function of the character alone.
#[verifier::external_body]
fn char_is_whitespace(c: char) -> (r: bool)
    ensures
        r == is_whitespace_char(c),
{
    c.is_whitespace()
}

/// A query with nothing to search for: empty, or white space throughout.
pub open spec fn blank_query(q: Seq<char>) -> bool {
    forall|i: int| 0 <= i < q.len() ==> is_whitespace_char(#[trigger] q[i])
}

/// Rejects a blank search query before anything is sent anywhere: a caller
/// asks this first and reaches for the network only on success.
pub fn validate_search_query(q: &str) -> (r: Result<(), RepoError>)
    ensures
        (r is Ok) == !blank_query(q@),
        r matches Err(e) ==> e matches RepoError::InvalidInput(_),
{
    let len = q.unicode_len();
    let mut i: usize = 0;
    while i < len
        invariant
            i <= len,
            len == q@.len(),
            forall|k: int| 0 <= k < i ==> is_whitespace_char(#[trigger] q@[k]),
        decreases len - i,
    {
        let c = q.get_char(i);
        if !char_is_whitespace(c) {
            return Ok(());
        }
        i = i + 1;
    }
    Err(RepoError::InvalidInput(String::from_str("empty search query is not allowed")))
}

/// `s` with its white-space ends taken off.
pub open spec fn trim_spec(s: Seq<char>) -> Seq<char>
    decreases s.len(),
{
    if s.len() == 0 {
        s
    } else if is_whitespace_char(s[0]) {
        trim_spec(s.drop_first())
    } else if is_whitespace_char(s.last()) {
        trim_spec(s.drop_last())
    } else {
        s
    }
}

proof fn lemma_trim_all_ws(s: Seq<char>)
    requires
        forall|k: int| 0 <= k < s.len() ==> is_whitespace_char(#[trigger] s[k]),
    ensures
        trim_spec(s) =~= Seq::<char>::empty(),
    decreases s.len(),
{
    if s.len() != 0 {
        lemma_trim_all_ws(s.drop_first());
    }
}

proof fn lemma_trim_bounds(s: Seq<char>, i: int, j: int)
    requires
        0 <= i <= j < s.len(),
        !is_whitespace_char(s[i]),
        !is_whitespace_char(s[j]),
        forall|k: int| 0 <= k < i ==> is_whitespace_char(#[trigger] s[k]),
        forall|k: int| j < k < s.len() ==> is_whitespace_char(#[trigger] s[k]),
    ensures
        trim_spec(s) =~= s.subrange(i, j + 1),
    decreases s.len(),
{
    if i > 0 {
        lemma_trim_bounds(s.drop_first(), i - 1, j - 1);
        assert(s.drop_first().subrange(i - 1, j) =~= s.subrange(i, j + 1));
    } else if j < s.len() - 1 {
        lemma_trim_bounds(s.drop_last(), i, j);
        assert(s.drop_last().subrange(i, j + 1) =~= s.subrange(i, j + 1));
    } else {
        assert(s.subrange(0, s.len() as int) =~= s);
    }
}

/// Takes the white-space ends off `s`.
pub fn trim_whitespace(s: &str) -> (r: String)
    ensures
        r@ == trim_spec(s@),
{
    let len = s.unicode_len();
    let mut first_nws: Option<usize> = None;
    let mut last_nws: usize = 0;
    let mut i: usize = 0;
    while i < len
        invariant
            i <= len,
            len == s@.len(),
            match first_nws {
                Some(f) => f < i && !is_whitespace_char(s@[f as int]) && last_nws < i
                    && !is_whitespace_char(s@[last_nws as int]) && f <= last_nws && (forall|k: int|
                    0 <= k < f ==> is_whitespace_char(#[trigger] s@[k])) && (forall|k: int|
                    last_nws < k < i ==> is_whitespace_char(#[trigger] s@[k])),
                None => forall|k: int| 0 <= k < i ==> is_whitespace_char(#[trigger] s@[k]),
            },
        decreases len - i,
    {
        let c = s.get_char(i);
        if !char_is_whitespace(c) {
            if first_nws.is_none() {
                first_nws = Some(i);
            }
            last_nws = i;
        }
        i = i + 1;
    }
    match first_nws {
        Some(f) => {
            proof {
                lemma_trim_bounds(s@, f as int, last_nws as int);
            }
            let piece = s.substring_char(f, last_nws + 1);
            String::from_str(piece)
        },
        None => {
            proof {
                lemma_trim_all_ws(s@);
            }
            String::new()
        },
    }
}

/// The search result a GitHub repository item becomes.
pub fn github_search_result(full_name: String, description: Option<String>, stars: usize) -> (r:
    RepoSearchResult)
    ensures
        r.provider@ == "github"@,
        r.full_name == full_name,
        r.description == description,
        r.stargazers_count == stars,
{
    RepoSearchResult {
        provider: String::from_str("github"),
        full_name,
        description,
        stargazers_count: stars,
    }
}

/// The search result a GitLab repository item becomes.
pub fn gitlab_search_result(full_name: String, description: Option<String>, stars: usize) -> (r:
    RepoSearchResult)
    ensures
        r.provider@ == "gitlab"@,
        r.full_name == full_name,
        r.description == description,
        r.stargazers_count == stars,
{
    RepoSearchResult {
        provider: String::from_str("gitlab"),
        full_name,
        description,
        stargazers_count: stars,
    }
}

/// Results ordered by falling star count.
pub open spec fn ranked(s: Seq<RepoSearchResult>) -> bool {
    forall|i: int, j: int|
        0 <= i < j < s.len() ==> (#[trigger] s[i]).stargazers_count >= (
        #[trigger] s[j]).stargazers_count
}

/// Everything the providers that answered returned, in answer order.
pub open spec fn merged_results(s: Seq<Result<Vec<RepoSearchResult>, RepoError>>) -> Seq<
    RepoSearchResult,
>
    decreases s.len(),
{
    if s.len() == 0 {
        Seq::<RepoSearchResult>::empty()
    } else {
        (match s[0] {
            Ok(v) => v@,
            Err(_) => Seq::<RepoSearchResult>::empty(),
        }) + merged_results(s.drop_first())
    }
}

/// Places `x` into the ranked list `v`, keeping the ranking.
fn insert_result_ranked(v: &mut Vec<RepoSearchResult>, x: RepoSearchResult)
    requires
        ranked(old(v)@),
    ensures
        ranked(final(v)@),
        final(v)@.len() == old(v)@.len() + 1,
        final(v)@.to_multiset() == old(v)@.to_multiset().insert(x),
{
    let mut i: usize = 0;
    while i < v.len() && v[i].stargazers_count >= x.stargazers_count
        invariant
            i <= v@.len(),
            v@ == old(v)@,
            forall|j: int| 0 <= j < i ==> (#[trigger] v@[j]).stargazers_count >= x.stargazers_count,
        decreases v@.len() - i,
    {
        i = i + 1;
    }
    let ghost old_seq = v@;
    v.insert(i, x);
    proof {
        crate::sequences::lemma_to_multiset_insert(old_seq, i as int, x);
        assert forall|p: int, q: int| 0 <= p < q < v@.len() implies (
        #[trigger] v@[p]).stargazers_count >= (#[trigger] v@[q]).stargazers_count by {
            assert(v@ == old_seq.insert(i as int, x));
            if q < i {
            } else if p > i {
                assert(v@[p] == old_seq[p - 1]);
                assert(v@[q] == old_seq[q - 1]);
            } else if p == i {
                assert(v@[q] == old_seq[q - 1]);
            } else if q == i {
                assert(v@[p] == old_seq[p]);
            } else {
                assert(v@[p] == old_seq[p]);
                assert(v@[q] == old_seq[q - 1]);
            }
        }
    }
}

/// Merges the providers' answers and ranks them by falling star count.
/// A provider that failed contributes nothing and fails nothing: the merged
/// list holds exactly the results of the providers that answered, and an
/// empty list is a valid outcome.
pub fn merge_and_rank(outcomes: Vec<Result<Vec<RepoSearchResult>, RepoError>>) -> (r: Vec<
    RepoSearchResult,
>)
    ensures
        ranked(r@),
        r@.to_multiset() == merged_results(outcomes@).to_multiset(),
{
    broadcast use vstd::seq_lib::group_to_multiset_ensures;

    let ghost whole = outcomes@;
    let mut rem = outcomes;
    let mut out: Vec<RepoSearchResult> = Vec::new();
    proof {
        assert(out@.to_multiset().add(merged_results(rem@).to_multiset()) =~= merged_results(
            whole,
        ).to_multiset());
    }
    while rem.len() > 0
        invariant
            ranked(out@),
            out@.to_multiset().add(merged_results(rem@).to_multiset()) =~= merged_results(
                whole,
            ).to_multiset(),
        decreases rem@.len(),
    {
        let ghost pre_rem = rem@;
        let first = rem.remove(0);
        proof {
            assert(rem@ =~= pre_rem.drop_first());
        }
        match first {
            Err(_) => {
                proof {
                    assert(merged_results(pre_rem) =~= merged_results(rem@));
                }
            },
            Ok(mut batch) => {
                proof {
                    assert(merged_results(pre_rem) =~= batch@ + merged_results(rem@));
                    vstd::seq_lib::lemma_multiset_commutative(batch@, merged_results(rem@));
                }
                let ghost total_here = out@.to_multiset().add(batch@.to_multiset()).add(
                    merged_results(rem@).to_multiset(),
                );
                proof {
                    assert(out@.to_multiset().add(
                        batch@.to_multiset().add(merged_results(rem@).to_multiset()),
                    ) =~= total_here);
                }
                while batch.len() > 0
                    invariant
                        ranked(out@),
                        out@.to_multiset().add(batch@.to_multiset()).add(
                            merged_results(rem@).to_multiset(),
                        ) =~= total_here,
                    decreases batch@.len(),
                {
                    let ghost pre_batch = batch@;
                    let x = match batch.pop() {
                        Some(x) => x,
                        None => vstd::pervasive::unreached(),
                    };
                    proof {
                        pre_batch.to_multiset_ensures();
                        assert(batch@ =~= pre_batch.remove(pre_batch.len() - 1));
                        assert(pre_batch.remove(pre_batch.len() - 1).to_multiset()
                            =~= pre_batch.to_multiset().remove(
                            pre_batch[pre_batch.len() - 1],
                        ));
                        assert(batch@.to_multiset() =~= pre_batch.to_multiset().remove(x));
                        assert(pre_batch.contains(x)) by {
                            assert(pre_batch[pre_batch.len() - 1] == x);
                        }
                        assert(pre_batch.to_multiset().count(x) > 0);
                        assert(pre_batch.to_multiset() =~= batch@.to_multiset().insert(x));
                    }
                    insert_result_ranked(&mut out, x);
                    proof {
                        assert(out@.to_multiset().add(batch@.to_multiset()).add(
                            merged_results(rem@).to_multiset(),
                        ) =~= total_here);
                    }
                }
                proof {
                    batch@.to_multiset_ensures();
                    vstd::multiset::lemma_multiset_empty_len(batch@.to_multiset());
                    assert(batch@.to_multiset() =~= Multiset::<RepoSearchResult>::empty());
                    assert(out@.to_multiset().add(merged_results(rem@).to_multiset())
                        =~= total_here);
                }
            },
        }
    }
    proof {
        merged_results(rem@).to_multiset_ensures();
        vstd::multiset::lemma_multiset_empty_len(merged_results(rem@).to_multiset());
        assert(merged_results(rem@).to_multiset() =~= Multiset::<RepoSearchResult>::empty());
        assert(out@.to_multiset() =~= merged_results(whole).to_multiset());
    }
    out
}

/// The trimmed description a result is shown with.
pub open spec fn result_description(r: RepoSearchResult) -> Seq<char> {
    match r.description {
        Some(d) => trim_spec(d@),
        None => Seq::<char>::empty(),
    }
}

/// The line one result is shown as.
pub open spec fn search_line(r: RepoSearchResult) -> Seq<char> {
    "- "@ + r.provider@ + ":"@ + r.full_name@ + " ⭐️"@ + dec_digits(r.stargazers_count as int)
        + "\n  "@ + result_description(r) + "\n\n"@
}

/// The lines a ranked result list is shown as.
pub open spec fn search_lines(rs: Seq<RepoSearchResult>) -> Seq<char>
    decreases rs.len(),
{
    if rs.len() == 0 {
        Seq::<char>::empty()
    } else {
        search_line(rs[0]) + search_lines(rs.drop_first())
    }
}

/// Renders a ranked result list: a header naming the query and one line per
/// result, or a plain sentence when nothing was found.
pub fn format_search_results(query: &str, results: &Vec<RepoSearchResult>) -> (r: String)
    ensures
        results@.len() == 0 ==> r@ == "No repositories found matching query: \""@ + query@ + "\""@,
        results@.len() > 0 ==> r@ == "Search results for: \""@ + query@ + "\"\n\n"@ + search_lines(
            results@,
        ),
{
    if results.len() == 0 {
        let mut out = String::from_str("No repositories found matching query: \"");
        out.append(query);
        out.append("\"");
        proof {
            assert(out@ =~= "No repositories found matching query: \""@ + query@ + "\""@);
        }
        return out;
    }
    let mut out = String::from_str("Search results for: \"");
    out.append(query);
    out.append("\"\n\n");
    proof {
        assert(results@.skip(0) =~= results@);
        assert(out@ =~= "Search results for: \""@ + query@ + "\"\n\n"@);
        assert(out@ + search_lines(results@.skip(0)) =~= "Search results for: \""@ + query@
            + "\"\n\n"@ + search_lines(results@));
    }
    let mut i: usize = 0;
    while i < results.len()
        invariant
            i <= results@.len(),
            out@ + search_lines(results@.skip(i as int)) == "Search results for: \""@ + query@
                + "\"\n\n"@ + search_lines(results@),
        decreases results@.len() - i,
    {
        proof {
            assert(results@.skip(i as int)[0] == results@[i as int]);
            assert(results@.skip(i as int).drop_first() =~= results@.skip(i as int + 1));
        }
        let ghost pre_out = out@;
        out.append("- ");
        out.append(results[i].provider.as_str());
        out.append(":");
        out.append(results[i].full_name.as_str());
        out.append(" ⭐️");
        let digits = crate::strutil::u64_to_decimal(results[i].stargazers_count as u64);
        out.append(digits.as_str());
        out.append("\n  ");
        let desc: String = match &results[i].description {
            Some(d) => trim_whitespace(d.as_str()),
            None => String::new(),
        };
        out.append(desc.as_str());
        out.append("\n\n");
        proof {
            assert(desc@ == result_description(results@[i as int]));
            assert(out@ =~= pre_out + search_line(results@[i as int]));
            assert(pre_out + (search_line(results@[i as int]) + search_lines(
                results@.skip(i as int + 1),
            )) =~= out@ + search_lines(results@.skip(i as int + 1)));
        }
        i = i + 1;
    }
    proof {
        assert(results@.skip(i as int).len() == 0);
        assert(out@ + search_lines(results@.skip(i as int)) =~= out@);
    }
    out
}

} // verus!
