//! The candidate resolver: collects favicon candidates from a page's icon
//! links, apple-touch-icon links and a fixed list of well-known paths, scores
//! each by its declared pixel size, and picks the best.
//!
//! Ties are broken by position: among equally scored candidates the earliest
//! one wins, in the order icon links, apple-touch-icon links, well-known
//! paths, each in document order. Callers must not rely on this. An
//! Open-Graph image is deliberately not a candidate: the chosen policy sticks
//! to declared icons and the well-known paths.

use vstd::prelude::*;
use crate::links::{
    AttrsView, IconAttrs, apple_selector, apple_selector_spec, icon_selector, icon_selector_spec,
    select_link_attrs, selected_link_attrs,
};
use crate::score::{
    DEFAULT_APPLE_SCORE, DEFAULT_ICON_SCORE, MAX_DECLARED_SCORE, SVG_SCORE, WELL_KNOWN_SCORE,
    parse_score_spec, score_of_attrs, score_of_attrs_spec, svg_mime_spec,
};
use crate::urls::{join_url, url_joined};

verus! {

/// A favicon candidate: a resolved absolute URL and its priority score.
pub struct Candidate {
    pub url: String,
    pub score: u64,
}

/// The mathematical content of a [`Candidate`].
pub struct CandView {
    pub url: Seq<char>,
    pub score: u64,
}

impl View for Candidate {
    type V = CandView;

    open spec fn view(&self) -> CandView {
        CandView { url: self.url@, score: self.score }
    }
}

/// The views of a sequence of candidates.
pub open spec fn cands_view(v: Seq<Candidate>) -> Seq<CandView> {
    v.map_values(|c: Candidate| c@)
}

/// The views of a sequence of attribute triples.
pub open spec fn attrs_views(v: Seq<IconAttrs>) -> Seq<AttrsView> {
    v.map_values(|a: IconAttrs| a@)
}

/// The candidates contributed by a run of matched links: each one with an
/// `href` that joins against `base`, scored by [`score_of_attrs_spec`] with
/// the tier default `dflt`, in order.
pub open spec fn scored_candidates_spec(attrs: Seq<AttrsView>, base: Seq<char>, dflt: u64) -> Seq<
    CandView,
>
    decreases attrs.len(),
{
    if attrs.len() == 0 {
        Seq::empty()
    } else {
        let prefix = scored_candidates_spec(attrs.drop_last(), base, dflt);
        let a = attrs.last();
        match a.href {
            Some(h) => match url_joined(base, h) {
                Some(u) => prefix.push(
                    CandView { url: u, score: score_of_attrs_spec(a, dflt) },
                ),
                None => prefix,
            },
            None => prefix,
        }
    }
}

/// The fixed well-known paths probed as a low-priority fallback tier.
pub open spec fn well_known_paths_spec() -> Seq<Seq<char>> {
    seq![
        "/favicon.ico"@,
        "/favicon.png"@,
        "/apple-touch-icon.png"@,
        "/apple-touch-icon-precomposed.png"@,
        "/touch-icon-iphone.png"@,
        "/touch-icon-ipad.png"@,
        "/touch-icon-iphone-retina.png"@,
        "/touch-icon-ipad-retina.png"@,
        "/browserconfig.xml"@,
        "/site.webmanifest"@,
    ]
}

/// The candidates contributed by the well-known paths that join against
/// `base`, each with [`WELL_KNOWN_SCORE`], in order.
pub open spec fn well_known_candidates_spec(paths: Seq<Seq<char>>, base: Seq<char>) -> Seq<
    CandView,
>
    decreases paths.len(),
{
    if paths.len() == 0 {
        Seq::empty()
    } else {
        let prefix = well_known_candidates_spec(paths.drop_last(), base);
        match url_joined(base, paths.last()) {
            Some(u) => prefix.push(CandView { url: u, score: WELL_KNOWN_SCORE }),
            None => prefix,
        }
    }
}

/// Every candidate considered for a page: icon links, then apple-touch-icon
/// links, then the well-known paths.
pub open spec fn all_candidates_spec(html: Seq<char>, base: Seq<char>) -> Seq<CandView> {
    scored_candidates_spec(selected_link_attrs(html, icon_selector_spec()), base, DEFAULT_ICON_SCORE)
        + scored_candidates_spec(
        selected_link_attrs(html, apple_selector_spec()),
        base,
        DEFAULT_APPLE_SCORE,
    ) + well_known_candidates_spec(well_known_paths_spec(), base)
}

/// The selected candidate: the earliest one of maximal score, or nothing from
/// an empty sequence.
pub open spec fn best_candidate_spec(cands: Seq<CandView>) -> Option<CandView>
    decreases cands.len(),
{
    if cands.len() == 0 {
        None
    } else {
        match best_candidate_spec(cands.drop_last()) {
            None => Some(cands.last()),
            Some(b) => if cands.last().score > b.score {
                Some(cands.last())
            } else {
                Some(b)
            },
        }
    }
}

/// What the resolver returns for a page: the URL of the best candidate, or
/// nothing when no candidate exists.
pub open spec fn resolve_spec(html: Seq<char>, base: Seq<char>) -> Option<Seq<char>> {
    match best_candidate_spec(all_candidates_spec(html, base)) {
        Some(c) => Some(c.url),
        None => None,
    }
}

proof fn lemma_scored_step(attrs: Seq<AttrsView>, base: Seq<char>, dflt: u64, i: int)
    requires
        0 <= i < attrs.len(),
    ensures
        scored_candidates_spec(attrs.take(i + 1), base, dflt) == ({
            let pre = scored_candidates_spec(attrs.take(i), base, dflt);
            match attrs[i].href {
                Some(h) => match url_joined(base, h) {
                    Some(u) => pre.push(
                        CandView { url: u, score: score_of_attrs_spec(attrs[i], dflt) },
                    ),
                    None => pre,
                },
                None => pre,
            }
        }),
{
    assert(attrs.take(i + 1).drop_last() =~= attrs.take(i));
    assert(attrs.take(i + 1).last() == attrs[i]);
}

/// Appends the candidates of one run of matched links to `out`.
#[verifier::loop_isolation(false)]
fn push_scored_candidates(out: &mut Vec<Candidate>, attrs: &Vec<IconAttrs>, base: &str, dflt: u64)
    ensures
        cands_view(final(out)@) == cands_view(old(out)@) + scored_candidates_spec(
            attrs_views(attrs@),
            base@,
            dflt,
        ),
{
    let ghost orig = cands_view(out@);
    let ghost avs = attrs_views(attrs@);
    let n = attrs.len();
    let mut i: usize = 0;
    proof {
        assert(cands_view(out@) =~= orig + scored_candidates_spec(avs.take(0), base@, dflt));
    }
    while i < n
        invariant
            i <= n,
            cands_view(out@) == orig + scored_candidates_spec(avs.take(i as int), base@, dflt),
        decreases n - i,
    {
        let a = &attrs[i];
        let ghost prev = out@;
        proof {
            lemma_scored_step(avs, base@, dflt, i as int);
            assert(avs[i as int] == attrs@[i as int]@);
        }
        match &a.href {
            Some(h) => {
                let score = score_of_attrs(a, dflt);
                match join_url(base, h.as_str()) {
                    Some(u) => {
                        let ghost uv = u@;
                        out.push(Candidate { url: u, score });
                        proof {
                            assert(a@.href == Some(h@));
                            let cvnew = CandView {
                                url: uv,
                                score: score_of_attrs_spec(avs[i as int], dflt),
                            };
                            assert(cands_view(out@) =~= cands_view(prev).push(cvnew));
                            assert(orig + scored_candidates_spec(avs.take(i as int), base@, dflt)
                                .push(cvnew) =~= (orig + scored_candidates_spec(
                                avs.take(i as int),
                                base@,
                                dflt,
                            )).push(cvnew));
                            assert(cands_view(out@) == orig + scored_candidates_spec(
                                avs.take(i as int + 1),
                                base@,
                                dflt,
                            ));
                        }
                    },
                    None => {
                        proof {
                            assert(a@.href == Some(h@));
                            assert(cands_view(out@) =~= orig + scored_candidates_spec(
                                avs.take(i as int + 1),
                                base@,
                                dflt,
                            ));
                        }
                    },
                }
            },
            None => {
                proof {
                    assert(a@.href is None);
                    assert(cands_view(out@) =~= orig + scored_candidates_spec(
                        avs.take(i as int + 1),
                        base@,
                        dflt,
                    ));
                }
            },
        }
        i += 1;
    }
    proof {
        assert(avs.take(n as int) =~= avs);
    }
}

/// The well-known fallback paths, in probe order.
fn well_known_paths() -> (r: Vec<&'static str>)
    ensures
        r@.map_values(|p: &str| p@) == well_known_paths_spec(),
{
    let mut v: Vec<&'static str> = Vec::new();
    v.push("/favicon.ico");
    v.push("/favicon.png");
    v.push("/apple-touch-icon.png");
    v.push("/apple-touch-icon-precomposed.png");
    v.push("/touch-icon-iphone.png");
    v.push("/touch-icon-ipad.png");
    v.push("/touch-icon-iphone-retina.png");
    v.push("/touch-icon-ipad-retina.png");
    v.push("/browserconfig.xml");
    v.push("/site.webmanifest");
    proof {
        assert(v@.map_values(|p: &str| p@) =~= well_known_paths_spec());
    }
    v
}

proof fn lemma_well_known_step(paths: Seq<Seq<char>>, base: Seq<char>, i: int)
    requires
        0 <= i < paths.len(),
    ensures
        well_known_candidates_spec(paths.take(i + 1), base) == ({
            let pre = well_known_candidates_spec(paths.take(i), base);
            match url_joined(base, paths[i]) {
                Some(u) => pre.push(CandView { url: u, score: WELL_KNOWN_SCORE }),
                None => pre,
            }
        }),
{
    assert(paths.take(i + 1).drop_last() =~= paths.take(i));
    assert(paths.take(i + 1).last() == paths[i]);
}

/// Appends the candidates of the well-known fallback paths to `out`.
#[verifier::loop_isolation(false)]
fn push_well_known_candidates(out: &mut Vec<Candidate>, base: &str)
    ensures
        cands_view(final(out)@) == cands_view(old(out)@) + well_known_candidates_spec(
            well_known_paths_spec(),
            base@,
        ),
{
    let ghost orig = cands_view(out@);
    let paths = well_known_paths();
    let ghost pvs = paths@.map_values(|p: &str| p@);
    let n = paths.len();
    let mut i: usize = 0;
    proof {
        assert(cands_view(out@) =~= orig + well_known_candidates_spec(pvs.take(0), base@));
    }
    while i < n
        invariant
            i <= n,
            cands_view(out@) == orig + well_known_candidates_spec(pvs.take(i as int), base@),
        decreases n - i,
    {
        let ghost prev = out@;
        proof {
            lemma_well_known_step(pvs, base@, i as int);
            assert(pvs[i as int] == paths@[i as int]@);
        }
        match join_url(base, paths[i]) {
            Some(u) => {
                let ghost uv = u@;
                out.push(Candidate { url: u, score: WELL_KNOWN_SCORE });
                proof {
                    let cvnew = CandView { url: uv, score: WELL_KNOWN_SCORE };
                    assert(cands_view(out@) =~= cands_view(prev).push(cvnew));
                    assert(orig + well_known_candidates_spec(pvs.take(i as int), base@).push(cvnew)
                        =~= (orig + well_known_candidates_spec(pvs.take(i as int), base@)).push(
                        cvnew,
                    ));
                    assert(cands_view(out@) == orig + well_known_candidates_spec(
                        pvs.take(i as int + 1),
                        base@,
                    ));
                }
            },
            None => {
                proof {
                    assert(cands_view(out@) =~= orig + well_known_candidates_spec(
                        pvs.take(i as int + 1),
                        base@,
                    ));
                }
            },
        }
        i += 1;
    }
    proof {
        assert(pvs.take(n as int) =~= pvs);
    }
}

proof fn lemma_best_step(cands: Seq<CandView>, i: int)
    requires
        0 <= i < cands.len(),
    ensures
        best_candidate_spec(cands.take(i + 1)) == ({
            match best_candidate_spec(cands.take(i)) {
                None => Some(cands[i]),
                Some(b) => if cands[i].score > b.score {
                    Some(cands[i])
                } else {
                    Some(b)
                },
            }
        }),
{
    assert(cands.take(i + 1).drop_last() =~= cands.take(i));
    assert(cands.take(i + 1).last() == cands[i]);
}

/// Picks the earliest candidate of maximal score.
#[verifier::loop_isolation(false)]
pub fn select_best(cands: &Vec<Candidate>) -> (r: Option<Candidate>)
    ensures
        (r is Some) == (best_candidate_spec(cands_view(cands@)) is Some),
        r matches Some(c) ==> best_candidate_spec(cands_view(cands@)) == Some(c@),
{
    let ghost cv = cands_view(cands@);
    let n = cands.len();
    if n == 0 {
        return None;
    }
    let mut best_i: usize = 0;
    let mut i: usize = 1;
    proof {
        assert(cv.take(1).drop_last() =~= cv.take(0));
        assert(cv.take(0).len() == 0);
        assert(best_candidate_spec(cv.take(0)) is None);
        assert(cv.take(1).last() == cv[0]);
        assert(best_candidate_spec(cv.take(1)) == Some(cv[0]));
    }
    while i < n
        invariant
            1 <= i <= n,
            best_i < i,
            best_candidate_spec(cv.take(i as int)) == Some(cv[best_i as int]),
        decreases n - i,
    {
        proof {
            lemma_best_step(cv, i as int);
        }
        if cands[i].score > cands[best_i].score {
            best_i = i;
        }
        i += 1;
    }
    proof {
        assert(cv.take(n as int) =~= cv);
    }
    let c = &cands[best_i];
    Some(Candidate { url: c.url.clone(), score: c.score })
}

/// Resolves the best favicon URL for a page: candidates are collected from
/// icon links, apple-touch-icon links and the well-known paths, each resolved
/// against `base_url`; the highest-scored one is returned, or nothing when no
/// reference joins against the base.
pub fn fetch_favicon_url(html: &str, base_url: &str) -> (r: Option<String>)
    ensures
        (r is Some) == (resolve_spec(html@, base_url@) is Some),
        r matches Some(u) ==> resolve_spec(html@, base_url@) == Some(u@),
{
    let icon_attrs = select_link_attrs(html, icon_selector());
    let apple_attrs = select_link_attrs(html, apple_selector());
    let mut cands: Vec<Candidate> = Vec::new();
    proof {
        assert(cands_view(cands@) =~= Seq::<CandView>::empty());
    }
    push_scored_candidates(&mut cands, &icon_attrs, base_url, DEFAULT_ICON_SCORE);
    push_scored_candidates(&mut cands, &apple_attrs, base_url, DEFAULT_APPLE_SCORE);
    push_well_known_candidates(&mut cands, base_url);
    proof {
        assert(cands_view(cands@) =~= all_candidates_spec(html@, base_url@));
    }
    match select_best(&cands) {
        Some(c) => Some(c.url),
        None => None,
    }
}

/// The basic fallback paths probed directly when a page yields nothing.
pub open spec fn basic_paths_spec() -> Seq<Seq<char>> {
    seq![
        "/favicon.ico"@,
        "/favicon.png"@,
        "/apple-touch-icon.png"@,
        "/apple-touch-icon-precomposed.png"@,
    ]
}

/// All of `paths` joined against `base`, in order, or nothing as soon as one
/// join fails.
pub open spec fn joined_all_spec(base: Seq<char>, paths: Seq<Seq<char>>) -> Option<Seq<Seq<char>>>
    decreases paths.len(),
{
    if paths.len() == 0 {
        Some(Seq::empty())
    } else {
        match joined_all_spec(base, paths.drop_last()) {
            Some(pre) => match url_joined(base, paths.last()) {
                Some(u) => Some(pre.push(u)),
                None => None,
            },
            None => None,
        }
    }
}

proof fn lemma_joined_all_step(base: Seq<char>, paths: Seq<Seq<char>>, i: int)
    requires
        0 <= i < paths.len(),
    ensures
        joined_all_spec(base, paths.take(i + 1)) == ({
            match joined_all_spec(base, paths.take(i)) {
                Some(pre) => match url_joined(base, paths[i]) {
                    Some(u) => Some(pre.push(u)),
                    None => None::<Seq<Seq<char>>>,
                },
                None => None::<Seq<Seq<char>>>,
            }
        }),
{
    assert(paths.take(i + 1).drop_last() =~= paths.take(i));
    assert(paths.take(i + 1).last() == paths[i]);
}

proof fn lemma_joined_all_none(base: Seq<char>, paths: Seq<Seq<char>>, i: int)
    requires
        0 <= i < paths.len(),
        url_joined(base, paths[i]) is None,
    ensures
        joined_all_spec(base, paths) is None,
    decreases paths.len(),
{
    if i < paths.len() - 1 {
        assert(paths.drop_last()[i] == paths[i]);
        lemma_joined_all_none(base, paths.drop_last(), i);
    }
}

/// The URLs of the basic fallback locations under `base`, in probe order;
/// nothing when `base` cannot be joined against.
#[verifier::loop_isolation(false)]
pub fn basic_location_urls(base: &str) -> (r: Option<Vec<String>>)
    ensures
        (r is Some) == (joined_all_spec(base@, basic_paths_spec()) is Some),
        r matches Some(v) ==> joined_all_spec(base@, basic_paths_spec()) == Some(
            v@.map_values(|s: String| s@),
        ),
{
    let mut paths: Vec<&'static str> = Vec::new();
    paths.push("/favicon.ico");
    paths.push("/favicon.png");
    paths.push("/apple-touch-icon.png");
    paths.push("/apple-touch-icon-precomposed.png");
    let ghost pvs = paths@.map_values(|p: &str| p@);
    proof {
        assert(pvs =~= basic_paths_spec());
    }
    let mut out: Vec<String> = Vec::new();
    let n = paths.len();
    let mut i: usize = 0;
    proof {
        assert(out@.map_values(|s: String| s@) =~= Seq::<Seq<char>>::empty());
        assert(joined_all_spec(base@, pvs.take(0)) == Some(out@.map_values(|s: String| s@)));
    }
    while i < n
        invariant
            i <= n,
            joined_all_spec(base@, pvs.take(i as int)) == Some(out@.map_values(|s: String| s@)),
        decreases n - i,
    {
        proof {
            lemma_joined_all_step(base@, pvs, i as int);
            assert(pvs[i as int] == paths@[i as int]@);
        }
        match join_url(base, paths[i]) {
            Some(u) => {
                let ghost uv = u@;
                let ghost prevout = out@;
                out.push(u);
                proof {
                    assert(out@.map_values(|s: String| s@) =~= prevout.map_values(
                        |s: String| s@,
                    ).push(uv));
                    assert(joined_all_spec(base@, pvs.take(i as int + 1)) == Some(
                        out@.map_values(|s: String| s@),
                    ));
                }
            },
            None => {
                proof {
                    lemma_joined_all_none(base@, pvs, i as int);
                }
                return None;
            },
        }
        i += 1;
    }
    proof {
        assert(pvs.take(n as int) =~= pvs);
    }
    Some(out)
}

/// `i` is the position of the earliest candidate of maximal score.
pub open spec fn is_first_max(cands: Seq<CandView>, i: int) -> bool {
    &&& 0 <= i < cands.len()
    &&& forall|j: int| 0 <= j < cands.len() ==> (#[trigger] cands[j].score) <= cands[i].score
    &&& forall|j: int| 0 <= j < i ==> (#[trigger] cands[j].score) < cands[i].score
}

/// The selection law, first half: a candidate is selected exactly when one
/// exists, and the selected candidate is an earliest one of maximal score.
pub proof fn lemma_best_characterization(cands: Seq<CandView>)
    ensures
        (best_candidate_spec(cands) is Some) == (cands.len() > 0),
        best_candidate_spec(cands) matches Some(b) ==> exists|i: int|
            #[trigger] is_first_max(cands, i) && cands[i] == b,
    decreases cands.len(),
{
    if cands.len() > 0 {
        let p = cands.drop_last();
        lemma_best_characterization(p);
        if p.len() == 0 {
            assert(cands[0] == cands.last());
            assert(is_first_max(cands, 0));
        } else {
            let b2 = best_candidate_spec(p).unwrap();
            let k = choose|k: int| #[trigger] is_first_max(p, k) && p[k] == b2;
            if cands.last().score > b2.score {
                let i = cands.len() - 1;
                assert forall|j: int| 0 <= j < cands.len() implies (#[trigger] cands[j].score)
                    <= cands[i].score by {
                    if j < i {
                        assert(cands[j] == p[j]);
                        assert(p[j].score <= p[k].score);
                    }
                }
                assert forall|j: int| 0 <= j < i implies (#[trigger] cands[j].score)
                    < cands[i].score by {
                    assert(cands[j] == p[j]);
                    assert(p[j].score <= p[k].score);
                }
                assert(is_first_max(cands, i));
            } else {
                assert(p[k] == cands[k]);
                assert forall|j: int| 0 <= j < cands.len() implies (#[trigger] cands[j].score)
                    <= cands[k].score by {
                    if j < cands.len() - 1 {
                        assert(cands[j] == p[j]);
                        assert(p[j].score <= p[k].score);
                    }
                }
                assert forall|j: int| 0 <= j < k implies (#[trigger] cands[j].score)
                    < cands[k].score by {
                    assert(cands[j] == p[j]);
                }
                assert(is_first_max(cands, k));
            }
        }
    }
}

/// The selection law, second half: the earliest candidate of maximal score is
/// the selected one. With [`lemma_best_characterization`] this pins the
/// documented tie-break down: among equal scores the earliest listed wins.
pub proof fn lemma_first_max_is_best(cands: Seq<CandView>, i: int)
    requires
        is_first_max(cands, i),
    ensures
        best_candidate_spec(cands) == Some(cands[i]),
    decreases cands.len(),
{
    let p = cands.drop_last();
    if i == cands.len() - 1 {
        if p.len() > 0 {
            lemma_best_characterization(p);
            let b2 = best_candidate_spec(p).unwrap();
            let k = choose|k: int| #[trigger] is_first_max(p, k) && p[k] == b2;
            assert(p[k] == cands[k]);
            assert(cands[k].score < cands[i].score);
        }
    } else {
        assert forall|j: int| 0 <= j < p.len() implies (#[trigger] p[j].score) <= p[i].score by {
            assert(p[j] == cands[j]);
            assert(p[i] == cands[i]);
        }
        assert forall|j: int| 0 <= j < i implies (#[trigger] p[j].score) < p[i].score by {
            assert(p[j] == cands[j]);
            assert(p[i] == cands[i]);
        }
        assert(is_first_max(p, i));
        lemma_first_max_is_best(p, i);
        assert(cands.last().score <= cands[i].score);
    }
}

/// Of two candidates, the higher-scored one is selected, whatever their
/// order: a plain icon scored 16 loses to an apple-touch icon scored 180.
pub proof fn lemma_higher_score_wins(a: CandView, b: CandView)
    requires
        a.score < b.score,
    ensures
        best_candidate_spec(seq![a, b]) == Some(b),
        best_candidate_spec(seq![b, a]) == Some(b),
{
    assert(is_first_max(seq![a, b], 1));
    lemma_first_max_is_best(seq![a, b], 1);
    assert(seq![a, b][1] == b);
    assert(is_first_max(seq![b, a], 0));
    lemma_first_max_is_best(seq![b, a], 0);
    assert(seq![b, a][0] == b);
}

/// The SVG tier law on scores: an SVG-typed link scores [`SVG_SCORE`]; any
/// other link scores strictly below it whenever its tier default does.
pub proof fn lemma_svg_scoring(a: AttrsView, dflt: u64)
    requires
        dflt < SVG_SCORE,
    ensures
        a.mime == Some(svg_mime_spec()) ==> score_of_attrs_spec(a, dflt) == SVG_SCORE,
        a.mime != Some(svg_mime_spec()) ==> score_of_attrs_spec(a, dflt) < SVG_SCORE,
{
    if a.mime != Some(svg_mime_spec()) {
        match a.sizes {
            Some(s) => {
                match parse_score_spec(s) {
                    Some(v) => {
                        let t = crate::score::token_before_x(s);
                        crate::score::lemma_digits_value_nonneg(t);
                        assert(v <= MAX_DECLARED_SCORE);
                    },
                    None => {},
                }
            },
            None => {},
        }
    }
}

/// The SVG tier law on selection: a candidate carrying [`SVG_SCORE`] is never
/// beaten, so the selected candidate carries that score and (by
/// [`lemma_svg_scoring`]) cannot be a raster link scored below it.
pub proof fn lemma_svg_candidate_preferred(cands: Seq<CandView>, i: int)
    requires
        0 <= i < cands.len(),
        cands[i].score == SVG_SCORE,
    ensures
        best_candidate_spec(cands) matches Some(b) && b.score == SVG_SCORE,
{
    lemma_best_characterization(cands);
    let b = best_candidate_spec(cands).unwrap();
    let k = choose|k: int| #[trigger] is_first_max(cands, k) && cands[k] == b;
    assert(cands[i].score <= cands[k].score);
}

proof fn lemma_scored_contains(attrs: Seq<AttrsView>, base: Seq<char>, dflt: u64, k: int)
    requires
        0 <= k < attrs.len(),
        attrs[k].href is Some,
        url_joined(base, attrs[k].href.unwrap()) is Some,
    ensures
        exists|j: int|
            0 <= j < scored_candidates_spec(attrs, base, dflt).len() && (#[trigger] scored_candidates_spec(
                attrs,
                base,
                dflt,
            )[j]).score == score_of_attrs_spec(attrs[k], dflt),
    decreases attrs.len(),
{
    let cur = scored_candidates_spec(attrs, base, dflt);
    if k == attrs.len() - 1 {
        assert(attrs.last() == attrs[k]);
        assert(cur[cur.len() - 1].score == score_of_attrs_spec(attrs[k], dflt));
    } else {
        let p = attrs.drop_last();
        assert(p[k] == attrs[k]);
        lemma_scored_contains(p, base, dflt, k);
        let pre = scored_candidates_spec(p, base, dflt);
        let j = choose|j: int| 0 <= j < pre.len() && (#[trigger] pre[j]).score
            == score_of_attrs_spec(p[k], dflt);
        assert(cur[j].score == score_of_attrs_spec(attrs[k], dflt));
    }
}

/// The SVG tier law end to end: a page with an SVG-typed icon link whose href
/// joins against the base resolves to a candidate carrying [`SVG_SCORE`] —
/// never to a raster link, which [`lemma_svg_scoring`] keeps strictly below.
pub proof fn lemma_svg_link_wins(html: Seq<char>, base: Seq<char>, k: int)
    ensures
        ({
            let icons = selected_link_attrs(html, icon_selector_spec());
            &&& 0 <= k < icons.len()
            &&& icons[k].mime == Some(svg_mime_spec())
            &&& icons[k].href is Some
            &&& url_joined(base, icons[k].href.unwrap()) is Some
        }) ==> (best_candidate_spec(all_candidates_spec(html, base)) matches Some(b) && b.score
            == SVG_SCORE),
{
    let icons = selected_link_attrs(html, icon_selector_spec());
    if 0 <= k < icons.len() && icons[k].mime == Some(svg_mime_spec()) && icons[k].href is Some
        && url_joined(base, icons[k].href.unwrap()) is Some {
        lemma_scored_contains(icons, base, DEFAULT_ICON_SCORE, k);
        lemma_svg_scoring(icons[k], DEFAULT_ICON_SCORE);
        let icands = scored_candidates_spec(icons, base, DEFAULT_ICON_SCORE);
        let j = choose|j: int| 0 <= j < icands.len() && (#[trigger] icands[j]).score
            == score_of_attrs_spec(icons[k], DEFAULT_ICON_SCORE);
        let full = all_candidates_spec(html, base);
        assert(full[j] == icands[j]);
        lemma_svg_candidate_preferred(full, j);
    }
}

/// The derivation invariant: a resolved URL is always the URL of one of the
/// considered candidates — an HTML reference or a well-known path joined
/// against the base, never anything else.
pub proof fn lemma_resolved_url_is_a_candidate(html: Seq<char>, base: Seq<char>)
    ensures
        resolve_spec(html, base) matches Some(u) ==> exists|j: int|
            0 <= j < all_candidates_spec(html, base).len() && (#[trigger] all_candidates_spec(
                html,
                base,
            )[j]).url == u,
{
    let full = all_candidates_spec(html, base);
    lemma_best_characterization(full);
    if resolve_spec(html, base) is Some {
        let b = best_candidate_spec(full).unwrap();
        let k = choose|k: int| #[trigger] is_first_max(full, k) && full[k] == b;
        assert(full[k].url == b.url);
    }
}

proof fn lemma_well_known_scores(paths: Seq<Seq<char>>, base: Seq<char>)
    ensures
        forall|j: int| 0 <= j < well_known_candidates_spec(paths, base).len()
            ==> (#[trigger] well_known_candidates_spec(paths, base)[j].score) == WELL_KNOWN_SCORE,
    decreases paths.len(),
{
    if paths.len() > 0 {
        lemma_well_known_scores(paths.drop_last(), base);
        let pre = well_known_candidates_spec(paths.drop_last(), base);
        let cur = well_known_candidates_spec(paths, base);
        assert forall|j: int| 0 <= j < cur.len() implies (#[trigger] cur[j].score)
            == WELL_KNOWN_SCORE by {
            if url_joined(base, paths.last()) is Some {
                if j < pre.len() {
                    assert(cur[j] == pre[j]);
                } else {
                    assert(cur[j].score == WELL_KNOWN_SCORE);
                }
            } else {
                assert(cur[j] == pre[j]);
            }
        }
    }
}

/// A page whose only matched link is a single sized icon resolves to that
/// link's URL: with exactly one icon-selector match, no apple-touch match, an
/// href that joins against the base, and a score above the well-known
/// fallback score, the resolver picks the joined URL.
pub proof fn lemma_single_sized_icon_resolves(
    html: Seq<char>,
    base: Seq<char>,
    a: AttrsView,
    h: Seq<char>,
    u: Seq<char>,
)
    ensures
        ({
            &&& selected_link_attrs(html, icon_selector_spec()) == seq![a]
            &&& selected_link_attrs(html, apple_selector_spec()) == Seq::<AttrsView>::empty()
            &&& a.href == Some(h)
            &&& url_joined(base, h) == Some(u)
            &&& WELL_KNOWN_SCORE < score_of_attrs_spec(a, DEFAULT_ICON_SCORE)
        }) ==> resolve_spec(html, base) == Some(u),
{
    let icons = selected_link_attrs(html, icon_selector_spec());
    let apples = selected_link_attrs(html, apple_selector_spec());
    if icons == seq![a] && apples == Seq::<AttrsView>::empty() && a.href == Some(h) && url_joined(
        base,
        h,
    ) == Some(u) && WELL_KNOWN_SCORE < score_of_attrs_spec(a, DEFAULT_ICON_SCORE) {
        let s = score_of_attrs_spec(a, DEFAULT_ICON_SCORE);
        let cv = CandView { url: u, score: s };
        assert(seq![a].drop_last() =~= Seq::<AttrsView>::empty());
        assert(seq![a].last() == a);
        assert(scored_candidates_spec(Seq::<AttrsView>::empty(), base, DEFAULT_ICON_SCORE)
            == Seq::<CandView>::empty());
        assert(scored_candidates_spec(Seq::<AttrsView>::empty(), base, DEFAULT_APPLE_SCORE)
            == Seq::<CandView>::empty());
        assert(scored_candidates_spec(seq![a], base, DEFAULT_ICON_SCORE) == Seq::<
            CandView,
        >::empty().push(cv));
        let wk = well_known_candidates_spec(well_known_paths_spec(), base);
        lemma_well_known_scores(well_known_paths_spec(), base);
        let full = all_candidates_spec(html, base);
        assert(full =~= seq![cv] + wk);
        assert(full[0] == cv);
        assert forall|j: int| 0 <= j < full.len() implies (#[trigger] full[j].score)
            <= full[0].score by {
            if j > 0 {
                assert(full[j] == wk[j - 1]);
            }
        }
        assert(is_first_max(full, 0));
        lemma_first_max_is_best(full, 0);
    }
}

proof fn lemma_well_known_none(paths: Seq<Seq<char>>, base: Seq<char>)
    requires
        forall|j: int| 0 <= j < paths.len() ==> url_joined(base, #[trigger] paths[j]) is None,
    ensures
        well_known_candidates_spec(paths, base) == Seq::<CandView>::empty(),
    decreases paths.len(),
{
    if paths.len() > 0 {
        assert forall|j: int| 0 <= j < paths.drop_last().len() implies url_joined(
            base,
            #[trigger] paths.drop_last()[j],
        ) is None by {
            assert(paths.drop_last()[j] == paths[j]);
        }
        lemma_well_known_none(paths.drop_last(), base);
        assert(url_joined(base, paths.last()) is None);
    }
}

/// A page with no matched links and a base that no well-known path joins
/// against resolves to nothing.
pub proof fn lemma_unresolvable_page(html: Seq<char>, base: Seq<char>)
    ensures
        ({
            &&& selected_link_attrs(html, icon_selector_spec()) == Seq::<AttrsView>::empty()
            &&& selected_link_attrs(html, apple_selector_spec()) == Seq::<AttrsView>::empty()
            &&& forall|j: int| 0 <= j < well_known_paths_spec().len() ==> url_joined(
                base,
                #[trigger] well_known_paths_spec()[j],
            ) is None
        }) ==> resolve_spec(html, base) is None,
{
    let icons = selected_link_attrs(html, icon_selector_spec());
    let apples = selected_link_attrs(html, apple_selector_spec());
    if icons == Seq::<AttrsView>::empty() && apples == Seq::<AttrsView>::empty() && (forall|j: int|
        0 <= j < well_known_paths_spec().len() ==> url_joined(
            base,
            #[trigger] well_known_paths_spec()[j],
        ) is None) {
        lemma_well_known_none(well_known_paths_spec(), base);
        assert(all_candidates_spec(html, base) =~= Seq::<CandView>::empty());
        assert(best_candidate_spec(all_candidates_spec(html, base)) is None);
    }
}

} // verus!
