//! A paper as the search service describes it.

use vstd::prelude::*;

verus! {

/// One paper: where it can be read, when it was published (an RFC 3339 time
/// stamp, kept as text), its title, its abstract and its authors in order.
#[derive(Debug, Clone, PartialEq, Eq)]
pub struct PaperModel {
    pub url: String,
    pub published: String,
    pub title: String,
    pub summary: String,
    pub authors: Vec<String>,
}

/// What a paper holds, as plain values.
pub struct PaperView {
    pub url: Seq<char>,
    pub published: Seq<char>,
    pub title: Seq<char>,
    pub summary: Seq<char>,
    pub authors: Seq<Seq<char>>,
}

/// The texts of a vector of strings, in order.
pub open spec fn texts(strings: Seq<String>) -> Seq<Seq<char>> {
    strings.map_values(|s: String| s@)
}

/// The views of a vector of papers, in order.
pub open spec fn papers_view(papers: Seq<PaperModel>) -> Seq<PaperView> {
    papers.map_values(|p: PaperModel| p@)
}

impl View for PaperModel {
    type V = PaperView;

    open spec fn view(&self) -> PaperView {
        PaperView {
            url: self.url@,
            published: self.published@,
            title: self.title@,
            summary: self.summary@,
            authors: texts(self.authors@),
        }
    }
}

/// A copy of `strings`, text for text.
pub fn copy_strings(strings: &Vec<String>) -> (r: Vec<String>)
    ensures
        texts(r@) == texts(strings@),
{
    let mut r: Vec<String> = Vec::new();
    let mut i: usize = 0;
    while i < strings.len()
        invariant
            i <= strings@.len(),
            r@.len() == i,
            forall|k: int| 0 <= k < i ==> (#[trigger] r@[k])@ == strings@[k]@,
        decreases strings@.len() - i,
    {
        r.push(strings[i].clone());
        i += 1;
    }
    assert(texts(r@) =~= texts(strings@));
    r
}

/// `text` with `to` in the place of every `from`.
pub open spec fn substituted(text: Seq<char>, from: char, to: Seq<char>) -> Seq<char>
    decreases text.len(),
{
    if text.len() == 0 {
        Seq::empty()
    } else {
        substituted(text.drop_last(), from, to) + if text.last() == from {
            to
        } else {
            seq![text.last()]
        }
    }
}

/// Calls `str::replace` with a character as the pattern: the result is `text` with
/// every occurrence of `from` replaced by `to`, and everything else as it was.
#[verifier::external_body]
fn replace_char(text: &str, from: char, to: &str) -> (r: String)
    ensures
        r@ == substituted(text@, from, to@),
{
    text.replace(from, to)
}

/// `text` on one line: a space stands where a line ended.
pub open spec fn on_one_line(text: Seq<char>) -> Seq<char> {
    substituted(text, '\n', seq![' '])
}

/// The paper with title and abstract on one line each.
pub open spec fn tidy(paper: PaperView) -> PaperView {
    PaperView {
        url: paper.url,
        published: paper.published,
        title: on_one_line(paper.title),
        summary: on_one_line(paper.summary),
        authors: paper.authors,
    }
}

impl PaperModel {
    /// The paper with every line break in its title and its abstract turned into
    /// a space.
    pub fn tidied(&self) -> (r: PaperModel)
        ensures
            r@ == tidy(self@),
    {
        proof {
            reveal_strlit(" ");
        }
        assert(" "@ =~= seq![' ']);
        PaperModel {
            url: self.url.clone(),
            published: self.published.clone(),
            title: replace_char(self.title.as_str(), '\n', " "),
            summary: replace_char(self.summary.as_str(), '\n', " "),
            authors: copy_strings(&self.authors),
        }
    }

    /// A copy of the paper, field for field.
    pub fn copy(&self) -> (r: PaperModel)
        ensures
            r@ == self@,
    {
        PaperModel {
            url: self.url.clone(),
            published: self.published.clone(),
            title: self.title.clone(),
            summary: self.summary.clone(),
            authors: copy_strings(&self.authors),
        }
    }
}

} // verus!
