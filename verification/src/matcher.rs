//! The match heuristic: which candidate of a search response answers a
//! request. Three tiers, from strict to loose; the first tier that admits
//! any candidate decides, and within it the first candidate in response
//! order. This is triage, not a relevance ranking.

use vstd::prelude::*;
use crate::model::{
    candidates_view, BookRequest, BookRequestView, SearchCandidate, SearchCandidateView,
};
use crate::text::{contains_folded, contains_ignoring_case};

verus! {

/// How strictly a candidate is held against the request.
#[derive(Clone, Copy, Debug, PartialEq, Eq, Structural)]
pub enum Tier {
    /// Author and title contain the requested ones, and the year is equal.
    Exact,
    /// Author and title contain the requested ones.
    TitleAndAuthor,
    /// The author contains the requested one.
    AuthorOnly,
}

/// The candidate's author contains the requested author, case ignored.
pub open spec fn author_matches(request: BookRequestView, candidate: SearchCandidateView) -> bool {
    contains_folded(candidate.author, request.author)
}

/// The candidate's title contains the requested title, case ignored.
pub open spec fn title_matches(request: BookRequestView, candidate: SearchCandidateView) -> bool {
    contains_folded(candidate.title, request.title)
}

/// Whether `tier` admits the candidate for the request.
pub open spec fn admits(
    tier: Tier,
    request: BookRequestView,
    candidate: SearchCandidateView,
) -> bool {
    match tier {
        Tier::Exact => author_matches(request, candidate) && title_matches(request, candidate)
            && candidate.year == request.year,
        Tier::TitleAndAuthor => author_matches(request, candidate) && title_matches(
            request,
            candidate,
        ),
        Tier::AuthorOnly => author_matches(request, candidate),
    }
}

/// The position of the first candidate that `tier` admits, if there is one.
pub open spec fn first_admitted(
    tier: Tier,
    request: BookRequestView,
    candidates: Seq<SearchCandidateView>,
) -> Option<int>
    decreases candidates.len(),
{
    if candidates.len() == 0 {
        None
    } else {
        match first_admitted(tier, request, candidates.drop_last()) {
            Some(i) => Some(i),
            None => if admits(tier, request, candidates.last()) {
                Some(candidates.len() - 1)
            } else {
                None
            },
        }
    }
}

/// The position of the best candidate: the first that the strictest
/// non-empty tier admits.
pub open spec fn best_match(
    request: BookRequestView,
    candidates: Seq<SearchCandidateView>,
) -> Option<int> {
    match first_admitted(Tier::Exact, request, candidates) {
        Some(i) => Some(i),
        None => match first_admitted(Tier::TitleAndAuthor, request, candidates) {
            Some(i) => Some(i),
            None => first_admitted(Tier::AuthorOnly, request, candidates),
        },
    }
}

/// A position, as the contracts speak of it.
pub open spec fn position_view(position: Option<usize>) -> Option<int> {
    match position {
        Some(i) => Some(i as int),
        None => None,
    }
}

/// `first_admitted` is the least admitted position, and is `None` exactly
/// when the tier admits no candidate.
pub proof fn lemma_first_admitted(
    tier: Tier,
    request: BookRequestView,
    candidates: Seq<SearchCandidateView>,
)
    ensures
        match first_admitted(tier, request, candidates) {
            Some(i) => {
                &&& 0 <= i < candidates.len()
                &&& admits(tier, request, candidates[i])
                &&& forall|j: int| 0 <= j < i ==> !admits(tier, request, #[trigger] candidates[j])
            },
            None => forall|j: int|
                0 <= j < candidates.len() ==> !admits(tier, request, #[trigger] candidates[j]),
        },
    decreases candidates.len(),
{
    if candidates.len() > 0 {
        let front = candidates.drop_last();
        lemma_first_admitted(tier, request, front);
        assert forall|j: int| 0 <= j < front.len() implies front[j] == candidates[j] by {}
    }
}

/// Each tier relaxes the one before it: what `Exact` admits,
/// `TitleAndAuthor` admits, and what `TitleAndAuthor` admits, `AuthorOnly`
/// admits.
pub proof fn lemma_tiers_relax(request: BookRequestView, candidate: SearchCandidateView)
    ensures
        admits(Tier::Exact, request, candidate) ==> admits(Tier::TitleAndAuthor, request, candidate),
        admits(Tier::TitleAndAuthor, request, candidate) ==> admits(
            Tier::AuthorOnly,
            request,
            candidate,
        ),
{
}

/// The answer of the strictest tier, when it has one, is among the answers
/// that the two looser tiers permit.
pub proof fn lemma_exact_answer_is_permitted(
    request: BookRequestView,
    candidates: Seq<SearchCandidateView>,
)
    ensures
        first_admitted(Tier::Exact, request, candidates) matches Some(i) ==> {
            &&& best_match(request, candidates) == Some(i)
            &&& 0 <= i < candidates.len()
            &&& admits(Tier::TitleAndAuthor, request, candidates[i])
            &&& admits(Tier::AuthorOnly, request, candidates[i])
        },
{
    lemma_first_admitted(Tier::Exact, request, candidates);
}

/// What the matcher answers, in plain terms: an answer is a candidate
/// whose author contains the requested author, and there is no answer
/// exactly when no candidate's author does.
pub proof fn lemma_best_match(request: BookRequestView, candidates: Seq<SearchCandidateView>)
    ensures
        best_match(request, candidates) matches Some(i) ==> 0 <= i < candidates.len()
            && author_matches(request, candidates[i]),
        best_match(request, candidates) is None <==> forall|j: int|
            0 <= j < candidates.len() ==> !author_matches(request, #[trigger] candidates[j]),
{
    lemma_first_admitted(Tier::Exact, request, candidates);
    lemma_first_admitted(Tier::TitleAndAuthor, request, candidates);
    lemma_first_admitted(Tier::AuthorOnly, request, candidates);
}

/// Selects the best candidate for the request: its position in
/// `candidates`, or `None` where no tier admits any.
pub fn select_candidate(request: &BookRequest, candidates: &Vec<SearchCandidate>) -> (chosen:
    Option<usize>)
    ensures
        position_view(chosen) == best_match(request@, candidates_view(candidates@)),
        chosen matches Some(i) ==> i < candidates.len(),
{
    let ghost views = candidates_view(candidates@);
    let mut exact: Option<usize> = None;
    let mut close: Option<usize> = None;
    let mut loose: Option<usize> = None;
    let mut i: usize = 0;
    while i < candidates.len()
        invariant
            i <= candidates.len(),
            views == candidates_view(candidates@),
            position_view(exact) == first_admitted(Tier::Exact, request@, views.take(i as int)),
            position_view(close) == first_admitted(
                Tier::TitleAndAuthor,
                request@,
                views.take(i as int),
            ),
            position_view(loose) == first_admitted(
                Tier::AuthorOnly,
                request@,
                views.take(i as int),
            ),
            exact matches Some(k) ==> k < i,
            close matches Some(k) ==> k < i,
            loose matches Some(k) ==> k < i,
        decreases candidates.len() - i,
    {
        let candidate = &candidates[i];
        proof {
            assert(views.take(i + 1).drop_last() =~= views.take(i as int));
        }
        let author_ok = contains_ignoring_case(candidate.author.as_str(), request.author.as_str());
        let title_ok = contains_ignoring_case(candidate.title.as_str(), request.title.as_str());
        let year_ok = candidate.year == request.year;
        if author_ok {
            if loose.is_none() {
                loose = Some(i);
            }
            if title_ok {
                if close.is_none() {
                    close = Some(i);
                }
                if year_ok && exact.is_none() {
                    exact = Some(i);
                }
            }
        }
        i += 1;
    }
    assert(views.take(i as int) =~= views);
    if exact.is_some() {
        exact
    } else if close.is_some() {
        close
    } else {
        loose
    }
}

} // verus!
