//! Reading the generation service's one-shot response, and mapping the
//! service's output path onto the host.
//!
//! The service reports a path from its own filesystem view. Known prefixes
//! are rewritten onto the host's `outputs/` directory; any other path falls
//! back to its final component under `outputs/`, and a path with no final
//! component is refused.

use vstd::prelude::*;
use vstd::string::StrSliceExecFns;
use vstd::string::StringExecFns;

use crate::job::opt_string_view;
use crate::text::{starts_with_seq, str_eq, str_starts_with};

verus! {

/// The characters after the last '/', or the whole text if there is none.
pub open spec fn after_last_slash(s: Seq<char>) -> Seq<char>
    decreases s.len(),
{
    if s.len() == 0 {
        s
    } else if s.last() == '/' {
        Seq::<char>::empty()
    } else {
        after_last_slash(s.drop_last()).push(s.last())
    }
}

proof fn lemma_after_last_slash_at(s: Seq<char>, k: int)
    requires
        0 <= k < s.len(),
        s[k] == '/',
        forall|j: int| k < j < s.len() ==> s[j] != '/',
    ensures
        after_last_slash(s) == s.subrange(k + 1, s.len() as int),
    decreases s.len(),
{
    if k == s.len() - 1 {
        assert(s.last() == '/');
        assert(after_last_slash(s) =~= s.subrange(k + 1, s.len() as int));
    } else {
        let d = s.drop_last();
        assert forall|j: int| k < j < d.len() implies d[j] != '/' by {
            assert(d[j] == s[j]);
        }
        lemma_after_last_slash_at(d, k);
        assert(after_last_slash(s) =~= s.subrange(k + 1, s.len() as int)) by {
            assert(after_last_slash(s) == after_last_slash(d).push(s.last()));
            assert(after_last_slash(d) == d.subrange(k + 1, d.len() as int));
        }
    }
}

proof fn lemma_after_last_slash_none(s: Seq<char>)
    requires
        forall|j: int| 0 <= j < s.len() ==> s[j] != '/',
    ensures
        after_last_slash(s) == s,
    decreases s.len(),
{
    if s.len() > 0 {
        lemma_after_last_slash_none(s.drop_last());
        assert(after_last_slash(s) =~= s);
    }
}

/// The host path an output path maps to: known service prefixes land under
/// `outputs/`, a path already under `outputs/` is kept, anything else falls
/// back to its final component under `outputs/`; nothing when that
/// component is empty.
pub open spec fn host_path_of(p: Seq<char>) -> Option<Seq<char>> {
    if starts_with_seq(p, "/app/outputs/"@) {
        Some("outputs/"@ + p.skip("/app/outputs/"@.len() as int))
    } else if starts_with_seq(p, "../outputs/"@) {
        Some("outputs/"@ + p.skip("../outputs/"@.len() as int))
    } else if starts_with_seq(p, "outputs/"@) {
        Some(p)
    } else if after_last_slash(p).len() > 0 {
        Some("outputs/"@ + after_last_slash(p))
    } else {
        None
    }
}

/// Map a service output path onto the host, per `host_path_of`.
pub fn normalize_output_path(p: &str) -> (r: Option<String>)
    ensures
        opt_string_view(r) == host_path_of(p@),
{
    let n = p.unicode_len();
    if str_starts_with(p, "/app/outputs/") {
        proof {
            reveal_strlit("/app/outputs/");
        }
        let rest = p.substring_char(13, n);
        return Some(String::from_str("outputs/").concat(rest));
    }
    if str_starts_with(p, "../outputs/") {
        proof {
            reveal_strlit("../outputs/");
        }
        let rest = p.substring_char(11, n);
        return Some(String::from_str("outputs/").concat(rest));
    }
    if str_starts_with(p, "outputs/") {
        return Some(p.to_owned());
    }
    // find the last '/'; scan from the end
    let mut i: usize = n;
    while i > 0
        invariant
            i <= n,
            n == p@.len(),
            !starts_with_seq(p@, "/app/outputs/"@),
            !starts_with_seq(p@, "../outputs/"@),
            !starts_with_seq(p@, "outputs/"@),
            forall|j: int| i <= j < n ==> p@[j] != '/',
        decreases i,
    {
        if p.get_char(i - 1) == '/' {
            proof {
                lemma_after_last_slash_at(p@, i - 1);
            }
            if i == n {
                // the path ends in '/': no final component
                proof {
                    assert(after_last_slash(p@) =~= Seq::<char>::empty());
                }
                return None;
            }
            let rest = p.substring_char(i, n);
            return Some(String::from_str("outputs/").concat(rest));
        }
        i = i - 1;
    }
    proof {
        lemma_after_last_slash_none(p@);
    }
    if n == 0 {
        return None;
    }
    Some(String::from_str("outputs/").concat(p))
}

/// How the service's one-shot generate response reads.
#[derive(Debug, PartialEq)]
pub enum GenerateOutcome {
    /// Success with a usable output, mapped onto the host.
    Ready(String),
    /// Success, but the service named no output path.
    MissingPath,
    /// Success, but the path has no final component.
    InvalidPath,
    /// The service reported an error, with its text if it gave one.
    ServiceError(Option<String>),
    /// A status word this protocol does not know.
    UnexpectedStatus,
}

pub enum GenerateOutcomeView {
    Ready(Seq<char>),
    MissingPath,
    InvalidPath,
    ServiceError(Option<Seq<char>>),
    UnexpectedStatus,
}

impl View for GenerateOutcome {
    type V = GenerateOutcomeView;

    open spec fn view(&self) -> GenerateOutcomeView {
        match self {
            GenerateOutcome::Ready(p) => GenerateOutcomeView::Ready(p@),
            GenerateOutcome::MissingPath => GenerateOutcomeView::MissingPath,
            GenerateOutcome::InvalidPath => GenerateOutcomeView::InvalidPath,
            GenerateOutcome::ServiceError(e) => GenerateOutcomeView::ServiceError(
                opt_string_view(*e),
            ),
            GenerateOutcome::UnexpectedStatus => GenerateOutcomeView::UnexpectedStatus,
        }
    }
}

/// What a response with the given fields means.
pub open spec fn interpret_spec(
    status: Seq<char>,
    output_path: Option<Seq<char>>,
    error: Option<Seq<char>>,
) -> GenerateOutcomeView {
    if status == "success"@ {
        match output_path {
            Some(p) => match host_path_of(p) {
                Some(h) => GenerateOutcomeView::Ready(h),
                None => GenerateOutcomeView::InvalidPath,
            },
            None => GenerateOutcomeView::MissingPath,
        }
    } else if status == "error"@ {
        GenerateOutcomeView::ServiceError(error)
    } else {
        GenerateOutcomeView::UnexpectedStatus
    }
}

/// Read the service's generate response: on success the output path is
/// mapped onto the host; an error carries the service's text through.
pub fn interpret_generate_response(
    status: &str,
    output_path: Option<String>,
    error: Option<String>,
) -> (r: GenerateOutcome)
    ensures
        r@ == interpret_spec(status@, opt_string_view(output_path), opt_string_view(error)),
{
    if str_eq(status, "success") {
        match output_path {
            Some(p) => match normalize_output_path(p.as_str()) {
                Some(h) => GenerateOutcome::Ready(h),
                None => GenerateOutcome::InvalidPath,
            },
            None => GenerateOutcome::MissingPath,
        }
    } else if str_eq(status, "error") {
        GenerateOutcome::ServiceError(error)
    } else {
        GenerateOutcome::UnexpectedStatus
    }
}

} // verus!
