//! From a fetched page to the targets that one scan probes.
use vstd::prelude::*;

verus! {

/// The href of each anchor element of an HTML document, in the order of the
/// parsed tree: `None` for an anchor without an href.
pub uninterp spec fn anchors_of(document: Seq<char>) -> Seq<Option<Seq<char>>>;

/// The serialised absolute URL that `href` resolves to against the absolute
/// URL `base`, or `None` when it does not resolve.
pub uninterp spec fn resolved(base: Seq<char>, href: Seq<char>) -> Option<Seq<char>>;

/// Relies on scraper's `Selector::parse("a")`, `Html::parse_document`,
/// `Html::select` and `Element::attr("href")`: the href of every anchor of the
/// document, in the order of the parsed tree. The fixed selector `a` is a valid
/// type selector, so its parse does not fail.
#[verifier::external_body]
fn anchor_hrefs(document: &str) -> (r: Option<Vec<Option<String>>>)
    ensures
        r is Some,
        r matches Some(hrefs) ==> hrefs.deep_view() == anchors_of(document@),
{
    let selector = scraper::Selector::parse("a").ok()?;
    let html = scraper::Html::parse_document(document);
    Some(html.select(&selector).map(|e| e.value().attr("href").map(String::from)).collect())
}

/// Relies on url's `Url::parse` of the base and `Url::join` of the href: the
/// resolved URL in its serialised form, or `None` when either call refuses.
#[verifier::external_body]
fn resolve_href(base: &str, href: &str) -> (r: Option<String>)
    ensures
        r.deep_view() == resolved(base@, href@),
{
    let base = url::Url::parse(base).ok()?;
    base.join(href).ok().map(String::from)
}

/// Why a scan stops before any probe is made.
#[derive(Debug, Clone)]
pub enum ScanError {
    /// The base page could not be fetched, or its body could not be read.
    Fetch(String),
    /// The query that selects anchor elements was refused.
    Selector,
}

/// The work of one scan: the targets to probe, one per anchor whose href
/// resolves, and the hrefs that were skipped because they do not resolve.
#[derive(Debug, Clone)]
pub struct ScanPlan {
    pub targets: Vec<String>,
    pub skipped: Vec<String>,
}

/// The targets owed to a page whose anchors carry `anchors`, in order:
/// duplicates are kept.
pub open spec fn planned_targets(base: Seq<char>, anchors: Seq<Option<Seq<char>>>) -> Seq<
    Seq<char>,
>
    decreases anchors.len(),
{
    if anchors.len() == 0 {
        seq![]
    } else {
        let rest = planned_targets(base, anchors.drop_last());
        match anchors.last() {
            Some(href) => match resolved(base, href) {
                Some(url) => rest.push(url),
                None => rest,
            },
            None => rest,
        }
    }
}

/// The hrefs among `anchors` that do not resolve against `base`, in order.
pub open spec fn skipped_hrefs(base: Seq<char>, anchors: Seq<Option<Seq<char>>>) -> Seq<Seq<char>>
    decreases anchors.len(),
{
    if anchors.len() == 0 {
        seq![]
    } else {
        let rest = skipped_hrefs(base, anchors.drop_last());
        match anchors.last() {
            Some(href) => match resolved(base, href) {
                Some(_) => rest,
                None => rest.push(href),
            },
            None => rest,
        }
    }
}

/// How many of `anchors` carry an href.
pub open spec fn href_count(anchors: Seq<Option<Seq<char>>>) -> nat
    decreases anchors.len(),
{
    if anchors.len() == 0 {
        0
    } else {
        href_count(anchors.drop_last()) + if anchors.last() is Some {
            1nat
        } else {
            0nat
        }
    }
}

/// Every href of a page is either planned as exactly one target or skipped
/// exactly once: none is lost and none is counted twice.
pub proof fn lemma_each_href_once(base: Seq<char>, anchors: Seq<Option<Seq<char>>>)
    ensures
        planned_targets(base, anchors).len() + skipped_hrefs(base, anchors).len() == href_count(
            anchors,
        ),
    decreases anchors.len(),
{
    if anchors.len() > 0 {
        lemma_each_href_once(base, anchors.drop_last());
    }
}

/// Resolves each of `anchors` against `base`: what resolves becomes a
/// target, an href that does not is skipped, an anchor without one is passed
/// over.
pub fn plan_targets(base: &str, anchors: &Vec<Option<String>>) -> (r: ScanPlan)
    ensures
        r.targets.deep_view() == planned_targets(base@, anchors.deep_view()),
        r.skipped.deep_view() == skipped_hrefs(base@, anchors.deep_view()),
{
    let mut targets: Vec<String> = Vec::new();
    let mut skipped: Vec<String> = Vec::new();
    let ghost all = anchors.deep_view();
    let mut i: usize = 0;
    while i < anchors.len()
        invariant
            i <= anchors.len(),
            all == anchors.deep_view(),
            targets.deep_view() == planned_targets(base@, all.take(i as int)),
            skipped.deep_view() == skipped_hrefs(base@, all.take(i as int)),
        decreases anchors.len() - i,
    {
        proof {
            assert(all.take(i + 1).drop_last() =~= all.take(i as int));
            assert(all.take(i + 1).last() == all[i as int]);
        }
        match &anchors[i] {
            Some(href) => match resolve_href(base, href.as_str()) {
                Some(url) => {
                    targets.push(url);
                    assert(targets.deep_view() =~= planned_targets(base@, all.take(i + 1)));
                },
                None => {
                    skipped.push(href.clone());
                    assert(skipped.deep_view() =~= skipped_hrefs(base@, all.take(i + 1)));
                },
            },
            None => {},
        }
        i = i + 1;
    }
    assert(all.take(i as int) =~= all);
    ScanPlan { targets, skipped }
}

/// Plans the scan of a fetched page: its anchors' hrefs, resolved against
/// `base`. The anchor query always parses, so planning always succeeds.
pub fn plan_scan(base: &str, document: &str) -> (r: Result<ScanPlan, ScanError>)
    ensures
        r is Ok,
        r matches Ok(plan) ==> {
            &&& plan.targets.deep_view() == planned_targets(base@, anchors_of(document@))
            &&& plan.skipped.deep_view() == skipped_hrefs(base@, anchors_of(document@))
        },
{
    match anchor_hrefs(document) {
        Some(anchors) => Ok(plan_targets(base, &anchors)),
        None => Err(ScanError::Selector),
    }
}

} // verus!
