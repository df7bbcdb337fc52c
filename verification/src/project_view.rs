//! What the project view shows: document progress, the construction
//! period, and the state of each project-wide document.

use vstd::prelude::*;
use crate::contractor_card::count_docs;
use crate::models::{Contractor, DocLink, DocStatus, ProjectData};
use crate::text::{extend_str, from_chars, to_chars};

verus! {

/// The number of documents of the contractors `cs`.
pub open spec fn total_docs(cs: Seq<Contractor>) -> nat
    decreases cs.len(),
{
    if cs.len() == 0 {
        0
    } else {
        total_docs(cs.drop_last()) + cs.last().docs@.len()
    }
}

/// The number of submitted documents of the contractors `cs`.
pub open spec fn complete_docs(cs: Seq<Contractor>) -> nat
    decreases cs.len(),
{
    if cs.len() == 0 {
        0
    } else {
        complete_docs(cs.drop_last()) + count_docs(cs.last().docs@, |d: DocStatus| d.status)
    }
}

/// The existence check reports each document of the project once: it
/// yields as many results as the contractors have documents.
pub proof fn lemma_existence_covers_all_docs(cs: Seq<Contractor>)
    ensures
        crate::dashboard::existence_results(cs).len() == total_docs(cs),
    decreases cs.len(),
{
    if cs.len() > 0 {
        lemma_existence_covers_all_docs(cs.drop_last());
    }
}

proof fn lemma_count_docs_bound(docs: Seq<(String, DocStatus)>, p: spec_fn(DocStatus) -> bool)
    ensures
        count_docs(docs, p) <= docs.len(),
    decreases docs.len(),
{
    if docs.len() > 0 {
        lemma_count_docs_bound(docs.drop_last(), p);
    }
}

proof fn lemma_complete_le_total(cs: Seq<Contractor>)
    ensures
        complete_docs(cs) <= total_docs(cs),
    decreases cs.len(),
{
    if cs.len() > 0 {
        lemma_complete_le_total(cs.drop_last());
        lemma_count_docs_bound(cs.last().docs@, |d: DocStatus| d.status);
    }
}

/// The documents of a project, in total and submitted.
pub fn doc_counts(project: &ProjectData) -> (r: (usize, usize))
    requires
        total_docs(project.contractors@) <= usize::MAX,
    ensures
        r.0 == total_docs(project.contractors@),
        r.1 == complete_docs(project.contractors@),
{
    let ghost cs = project.contractors@;
    let mut total: usize = 0;
    let mut complete: usize = 0;
    let mut i: usize = 0;
    assert(cs.take(0) =~= Seq::<Contractor>::empty());
    while i < project.contractors.len()
        invariant
            i <= cs.len(),
            cs == project.contractors@,
            total_docs(cs) <= usize::MAX,
            total == total_docs(cs.take(i as int)),
            complete == complete_docs(cs.take(i as int)),
        decreases cs.len() - i,
    {
        proof {
            assert(cs.take(i + 1).drop_last() =~= cs.take(i as int));
            lemma_total_docs_prefix(cs, i + 1);
            lemma_complete_le_total(cs.take(i + 1));
        }
        let c = &project.contractors[i];
        let n = crate::contractor_card::card_summary(c);
        total = total + c.docs.len();
        complete = complete + n.complete;
        i = i + 1;
    }
    assert(cs.take(cs.len() as int) =~= cs);
    (total, complete)
}

proof fn lemma_total_docs_prefix(cs: Seq<Contractor>, n: int)
    requires
        0 <= n <= cs.len(),
    ensures
        total_docs(cs.take(n)) <= total_docs(cs),
    decreases cs.len(),
{
    if n < cs.len() {
        lemma_total_docs_prefix(cs.drop_last(), n);
        assert(cs.drop_last().take(n) =~= cs.take(n));
    } else {
        assert(cs.take(n) =~= cs);
    }
}

/// The share of submitted documents in percent, rounded down (0 without
/// documents).
pub open spec fn progress_of(p: ProjectData) -> nat {
    if total_docs(p.contractors@) > 0 {
        (complete_docs(p.contractors@) * 100 / total_docs(p.contractors@)) as nat
    } else {
        0
    }
}

/// The progress of a project's documents, in percent.
pub fn project_progress(project: &ProjectData) -> (r: usize)
    requires
        complete_docs(project.contractors@) * 100 <= usize::MAX,
        total_docs(project.contractors@) <= usize::MAX,
    ensures
        r == progress_of(*project),
{
    let (total, complete) = doc_counts(project);
    if total > 0 {
        (complete * 100) / total
    } else {
        0
    }
}

/// The construction period shown: `start〜end` from whichever of the two
/// dates is set, else the free-text period.
pub open spec fn period_text_of(p: ProjectData) -> Seq<char> {
    let start = match p.period_start {
        Some(s) => s@,
        None => Seq::empty(),
    };
    let end = match p.period_end {
        Some(e) => e@,
        None => Seq::empty(),
    };
    if start.len() > 0 && end.len() > 0 {
        start + "〜"@ + end
    } else if start.len() > 0 {
        start + "〜"@
    } else if end.len() > 0 {
        "〜"@ + end
    } else {
        p.period@
    }
}

fn opt_text(o: &Option<String>) -> (r: Vec<char>)
    ensures
        r@ == match *o {
            Some(s) => s@,
            None => Seq::<char>::empty(),
        },
{
    match o {
        Some(s) => to_chars(s.as_str()),
        None => Vec::new(),
    }
}

/// The construction period shown for a project.
pub fn period_text(project: &ProjectData) -> (r: String)
    ensures
        r@ == period_text_of(*project),
{
    let start = opt_text(&project.period_start);
    let end = opt_text(&project.period_end);
    let mut out: Vec<char> = Vec::new();
    if start.len() > 0 && end.len() > 0 {
        crate::text::extend_chars(&mut out, &start);
        extend_str(&mut out, "〜");
        crate::text::extend_chars(&mut out, &end);
    } else if start.len() > 0 {
        crate::text::extend_chars(&mut out, &start);
        extend_str(&mut out, "〜");
    } else if end.len() > 0 {
        extend_str(&mut out, "〜");
        crate::text::extend_chars(&mut out, &end);
    } else {
        return project.period.clone();
    }
    from_chars(&out)
}

/// The mark of a project-wide document: ✓ when submitted, ○ when listed
/// but not submitted, − when absent.
pub open spec fn doc_mark_of(doc: Option<DocLink>) -> Seq<char> {
    match doc {
        Some(d) => if d.status {
            "✓"@
        } else {
            "○"@
        },
        None => "−"@,
    }
}

/// The mark shown for a project-wide document.
pub fn project_doc_mark(doc: &Option<DocLink>) -> (r: &'static str)
    ensures
        r@ == doc_mark_of(*doc),
{
    match doc {
        Some(d) => if d.status {
            "✓"
        } else {
            "○"
        },
        None => "−",
    }
}

} // verus!
