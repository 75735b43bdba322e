//! Reading nodes out of page markup. The markup is parsed and queried by the
//! `scraper` crate; what it returns is taken on trust and given a name.

use scraper::{Html, Selector};
use vstd::prelude::*;

verus! {

/// Whether `scraper` accepts `css` as a group of CSS selectors.
pub uninterp spec fn selector_parses(css: Seq<char>) -> bool;

/// The attributes, as pairs of name and value, of each element of
/// `document` that matches `css`, one entry for each element that
/// `Html::select` yields and in the order in which it yields them.
pub uninterp spec fn selected_nodes(document: Seq<char>, css: Seq<char>) -> Seq<
    Seq<(Seq<char>, Seq<char>)>,
>;

/// For each element of `document` that matches `css`, in the order in
/// which `Html::select` yields them: its descendants that match
/// `child_css` as `ElementRef::select` yields them, each with its
/// attributes and the texts of the text nodes below it.
pub uninterp spec fn selected_children(
    document: Seq<char>,
    css: Seq<char>,
    child_css: Seq<char>,
) -> Seq<Seq<(Seq<(Seq<char>, Seq<char>)>, Seq<Seq<char>>)>>;

/// Asks `Selector::parse` whether it accepts `css`. Trusted: the answer is
/// the one that the name `selector_parses` stands for.
#[verifier::external_body]
pub(crate) fn selector_is_valid(css: &str) -> (b: bool)
    ensures
        b == selector_parses(css@),
{
    Selector::parse(css).is_ok()
}

/// Parses `document` with `Html::parse_document` and walks the elements
/// that `Html::select` finds for `css`, copying out the attributes that
/// `Element::attrs` yields. Trusted: there is a result exactly when
/// `Selector::parse` accepts `css`, and it is the one that the name
/// `selected_nodes` stands for.
#[verifier::external_body]
pub(crate) fn select_nodes(document: &str, css: &str) -> (r: Option<Vec<Vec<(String, String)>>>)
    ensures
        (r is Some) == selector_parses(css@),
        r matches Some(v) ==> v.deep_view() == selected_nodes(document@, css@),
{
    let selector = Selector::parse(css).ok()?;
    let html = Html::parse_document(document);
    Some(
        html.select(&selector).map(
            |e| e.value().attrs().map(|(k, v)| (k.to_string(), v.to_string())).collect(),
        ).collect(),
    )
}

/// Parses `document` with `Html::parse_document`, walks the elements that
/// `Html::select` finds for `css` and, below each, those that
/// `ElementRef::select` finds for `child_css`, copying out what
/// `Element::attrs` and `ElementRef::text` yield. Trusted: there is a
/// result exactly when `Selector::parse` accepts both selectors, and it is
/// the one that the name `selected_children` stands for.
#[verifier::external_body]
pub(crate) fn select_children(document: &str, css: &str, child_css: &str) -> (r: Option<
    Vec<Vec<(Vec<(String, String)>, Vec<String>)>>,
>)
    ensures
        (r is Some) == (selector_parses(css@) && selector_parses(child_css@)),
        r matches Some(v) ==> v.deep_view() == selected_children(document@, css@, child_css@),
{
    let outer = Selector::parse(css).ok()?;
    let inner = Selector::parse(child_css).ok()?;
    let html = Html::parse_document(document);
    Some(
        html.select(&outer).map(
            |e| e.select(&inner).map(
                |c| (
                    c.value().attrs().map(|(k, v)| (k.to_string(), v.to_string())).collect(),
                    c.text().map(|t| t.to_string()).collect(),
                ),
            ).collect(),
        ).collect(),
    )
}

} // verus!
