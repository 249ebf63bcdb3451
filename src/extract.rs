//! Extraction of findings (title, link, description) from a results page.
//!
//! `scraper` parses the page and pulls, from each result block, the target of
//! its first link, the text of the title inside that link and the text of its
//! description. What the library decides is which blocks make a finding, how a
//! wrapped redirect link is unwrapped, and how the text of an element is
//! flattened.

use vstd::prelude::*;
use scraper::{ElementRef, Html, Selector};

use crate::text::{has_prefix, prefix_before, trim_text, trimmed, up_to};

verus! {

/// What the page gives for one result block: the target of its first link, the
/// text pieces of the title inside that link, and the text pieces of its
/// description. `None` where the element is missing.
pub struct ResultBlock {
    pub link: Option<String>,
    pub title: Option<Vec<String>>,
    pub description: Option<Vec<String>>,
}

pub open spec fn pieces_view(p: Option<Vec<String>>) -> Option<Seq<Seq<char>>> {
    match p {
        Some(v) => Some(v@.map_values(|s: String| s@)),
        None => None,
    }
}

/// A result block as plain values.
pub open spec fn block_view(b: ResultBlock) -> (Option<Seq<char>>, Option<Seq<Seq<char>>>, Option<Seq<Seq<char>>>) {
    (
        match b.link {
            Some(l) => Some(l@),
            None => None,
        },
        pieces_view(b.title),
        pieces_view(b.description),
    )
}

pub open spec fn blocks_view(bs: Seq<ResultBlock>) -> Seq<(Option<Seq<char>>, Option<Seq<Seq<char>>>, Option<Seq<Seq<char>>>)> {
    bs.map_values(|b: ResultBlock| block_view(b))
}

/// The result blocks that `scraper` finds in a page, in document order: for each
/// `div.ezO2md`, the `href` of its first `a[href]`, the text nodes of the first
/// `span.CVA68e` inside that link, and the text nodes of its first `span.FrIlee`.
pub uninterp spec fn scraped_blocks(text: Seq<char>) -> Seq<(Option<Seq<char>>, Option<Seq<Seq<char>>>, Option<Seq<Seq<char>>>)>;

pub open spec fn redirect_prefix() -> Seq<char> {
    seq!['/', 'u', 'r', 'l', '?', 'q', '=']
}

pub open spec fn is_redirect(href: Seq<char>) -> bool {
    redirect_prefix().len() <= href.len() && href.subrange(0, 7) == redirect_prefix()
}

/// The destination of a link: a redirect wrapper is stripped of its prefix and
/// cut at the first `&`, where its own parameters begin; any other link is kept
/// as it is.
pub open spec fn unwrapped(href: Seq<char>) -> Seq<char> {
    if is_redirect(href) {
        up_to(href.skip(7), '&')
    } else {
        href
    }
}

/// Text pieces joined by single spaces.
pub open spec fn joined(pieces: Seq<Seq<char>>) -> Seq<char>
    decreases pieces.len(),
{
    if pieces.len() == 0 {
        Seq::empty()
    } else if pieces.len() == 1 {
        pieces[0]
    } else {
        joined(pieces.drop_last()) + seq![' '] + pieces.last()
    }
}

pub open spec fn text_of(pieces: Seq<Seq<char>>) -> Seq<char> {
    trimmed(joined(pieces))
}

/// The finding that a block gives: one only when link, title and description
/// are all present.
pub open spec fn finding_of(b: (Option<Seq<char>>, Option<Seq<Seq<char>>>, Option<Seq<Seq<char>>>)) -> Option<(Seq<char>, Seq<char>, Seq<char>)> {
    match b {
        (Some(link), Some(title), Some(description)) => Some(
            (text_of(title), unwrapped(link), text_of(description)),
        ),
        _ => None,
    }
}

/// The findings of a sequence of blocks, in block order.
pub open spec fn findings_of(blocks: Seq<(Option<Seq<char>>, Option<Seq<Seq<char>>>, Option<Seq<Seq<char>>>)>) -> Seq<(Seq<char>, Seq<char>, Seq<char>)>
    decreases blocks.len(),
{
    if blocks.len() == 0 {
        Seq::empty()
    } else {
        findings_of(blocks.drop_last()) + match finding_of(blocks.last()) {
            Some(f) => seq![f],
            None => Seq::empty(),
        }
    }
}

pub open spec fn views(r: Seq<(String, String, String)>) -> Seq<(Seq<char>, Seq<char>, Seq<char>)> {
    r.map_values(|f: (String, String, String)| (f.0@, f.1@, f.2@))
}

/// Findings of two runs of blocks, one after the other, are the findings of each.
pub proof fn lemma_findings_concat(
    a: Seq<(Option<Seq<char>>, Option<Seq<Seq<char>>>, Option<Seq<Seq<char>>>)>,
    b: Seq<(Option<Seq<char>>, Option<Seq<Seq<char>>>, Option<Seq<Seq<char>>>)>,
)
    ensures
        findings_of(a + b) == findings_of(a) + findings_of(b),
    decreases b.len(),
{
    if b.len() == 0 {
        assert(a + b =~= a);
        assert(findings_of(b) =~= Seq::empty());
        assert(findings_of(a) + findings_of(b) =~= findings_of(a));
    } else {
        lemma_findings_concat(a, b.drop_last());
        assert((a + b).drop_last() =~= a + b.drop_last());
        assert((a + b).last() == b.last());
        assert(findings_of(a + b) =~= findings_of(a) + findings_of(b));
    }
}

/// The skip rule: a block without a description gives no finding, and the
/// complete blocks around it still give theirs, in order.
pub proof fn lemma_incomplete_block_skipped(
    before: Seq<(Option<Seq<char>>, Option<Seq<Seq<char>>>, Option<Seq<Seq<char>>>)>,
    block: (Option<Seq<char>>, Option<Seq<Seq<char>>>, Option<Seq<Seq<char>>>),
    after: Seq<(Option<Seq<char>>, Option<Seq<Seq<char>>>, Option<Seq<Seq<char>>>)>,
)
    requires
        block.2 is None,
    ensures
        findings_of(before + seq![block] + after) == findings_of(before) + findings_of(after),
{
    lemma_findings_concat(before + seq![block], after);
    lemma_findings_concat(before, seq![block]);
    assert(seq![block].drop_last() =~= Seq::<(Option<Seq<char>>, Option<Seq<Seq<char>>>, Option<Seq<Seq<char>>>)>::empty());
    assert(seq![block].last() == block);
    assert(finding_of(block) is None);
    assert(findings_of(Seq::<(Option<Seq<char>>, Option<Seq<Seq<char>>>, Option<Seq<Seq<char>>>)>::empty()) =~= Seq::empty());
    assert(findings_of(seq![block]) =~= Seq::empty());
    assert(findings_of(before) + findings_of(seq![block]) =~= findings_of(before));
}

/// The destination of a result link.
pub fn unwrap_link(href: &str) -> (r: &str)
    ensures
        r@ == unwrapped(href@),
{
    proof {
        reveal_strlit("/url?q=");
        assert("/url?q="@ =~= redirect_prefix());
    }
    if has_prefix(href, "/url?q=") {
        let rest = href.substring_char(7, href.unicode_len());
        assert(rest@ =~= href@.skip(7));
        prefix_before(rest, '&')
    } else {
        href
    }
}

/// The text of an element: its pieces joined by spaces, then trimmed.
pub fn element_text(pieces: &Vec<String>) -> (r: String)
    ensures
        r@ == text_of(pieces@.map_values(|p: String| p@)),
{
    let ghost views = pieces@.map_values(|p: String| p@);
    let mut all = String::new();
    let mut i: usize = 0;
    while i < pieces.len()
        invariant
            views == pieces@.map_values(|p: String| p@),
            i <= pieces@.len(),
            all@ == joined(views.take(i as int)),
        decreases pieces@.len() - i,
    {
        if i > 0 {
            all.append(" ");
        }
        all.append(pieces[i].as_str());
        proof {
            reveal_strlit(" ");
            let t = views.take(i as int + 1);
            assert(t.drop_last() =~= views.take(i as int));
            assert(t.last() == pieces@[i as int]@);
            if i == 0 {
                assert(t.len() == 1);
            }
        }
        i = i + 1;
    }
    proof {
        assert(views.take(i as int) =~= views);
    }
    String::from_str(trim_text(all.as_str()))
}

/// The finding of one block, if it is complete.
pub fn block_finding(b: &ResultBlock) -> (r: Option<(String, String, String)>)
    ensures
        match r {
            Some(f) => finding_of(block_view(*b)) == Some((f.0@, f.1@, f.2@)),
            None => finding_of(block_view(*b)) is None,
        },
{
    match (&b.link, &b.title, &b.description) {
        (Some(link), Some(title), Some(description)) => Some(
            (
                element_text(title),
                String::from_str(unwrap_link(link.as_str())),
                element_text(description),
            ),
        ),
        _ => None,
    }
}

/// The findings of the blocks, in order; incomplete blocks are skipped.
pub fn extract_findings(blocks: &Vec<ResultBlock>) -> (r: Vec<(String, String, String)>)
    ensures
        views(r@) == findings_of(blocks_view(blocks@)),
{
    let mut out: Vec<(String, String, String)> = Vec::new();
    let mut i: usize = 0;
    while i < blocks.len()
        invariant
            i <= blocks@.len(),
            views(out@) == findings_of(blocks_view(blocks@.take(i as int))),
        decreases blocks@.len() - i,
    {
        let ghost before = out@;
        let f = block_finding(&blocks[i]);
        proof {
            let t = blocks_view(blocks@.take(i as int + 1));
            assert(t.drop_last() =~= blocks_view(blocks@.take(i as int)));
            assert(t.last() == block_view(blocks@[i as int]));
        }
        match f {
            Some(found) => {
                out.push(found);
                proof {
                    assert(views(out@) =~= views(before) + seq![(found.0@, found.1@, found.2@)]);
                }
            },
            None => {
                proof {
                    assert(findings_of(blocks_view(blocks@.take(i as int + 1))) =~= findings_of(
                        blocks_view(blocks@.take(i as int)),
                    ));
                }
            },
        }
        i = i + 1;
    }
    proof {
        assert(blocks@.take(i as int) =~= blocks@);
    }
    out
}

/// Relies on `scraper`: `Html::parse_document` parses the page, `Selector::parse`
/// accepts the four fixed selectors, `Html::select` and `ElementRef::select` give
/// matching elements in document order, `ElementRef::attr` reads the link target
/// and `ElementRef::text` gives an element's text nodes in order.
#[verifier::external_body]
fn page_blocks(text: &str, block: &str, link: &str, title: &str, description: &str) -> (r: Vec<ResultBlock>)
    requires
        block@ == "div.ezO2md"@,
        link@ == "a[href]"@,
        title@ == "span.CVA68e"@,
        description@ == "span.FrIlee"@,
    ensures
        blocks_view(r@) == scraped_blocks(text@),
{
    let sel = |css: &str| Selector::parse(css).unwrap();
    let (b, l, t, d) = (sel(block), sel(link), sel(title), sel(description));
    let texts = |e: ElementRef| e.text().map(String::from).collect();
    Html::parse_document(text).select(&b).map(|e| {
        let a = e.select(&l).next();
        ResultBlock {
            link: a.map(|a| a.attr("href").unwrap_or("").into()),
            title: a.and_then(|a| a.select(&t).next()).map(texts),
            description: e.select(&d).next().map(texts),
        }
    }).collect()
}

/// The findings of a results page, in document order.
pub fn parse(text: &str) -> (r: Vec<(String, String, String)>)
    ensures
        views(r@) == findings_of(scraped_blocks(text@)),
{
    let blocks = page_blocks(text, "div.ezO2md", "a[href]", "span.CVA68e", "span.FrIlee");
    extract_findings(&blocks)
}

} // verus!
