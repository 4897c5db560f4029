use vstd::prelude::*;

use crate::history::{BoundedHistory, pushed_bounded};
use crate::text::{chars_of, string_of, trim_chars, trim_spec};
use crate::utils::{current_wib_time, wib_clock};

verus! {

/// Names what the HTML parser finds in the page `html` for the CSS selector `selector`: the
/// text of the first matching element, all its text nodes joined in document order; `None`
/// when no element matches or the selector does not parse.
pub uninterp spec fn first_match_text(html: Seq<char>, selector: Seq<char>) -> Option<Seq<char>>;

/// The joined text of the first element of the page that `selector` matches
/// (`scraper::Html::parse_document`, `scraper::Selector::parse`, `select` and `text`).
///
/// Claims only that the result is the named text for the page and the selector, a function of
/// the two alone; HTML parsing and selector matching are not stated.
#[verifier::external_body]
fn select_first_text(html: &str, selector: &str) -> (res: Option<String>)
    ensures
        match res {
            Some(t) => first_match_text(html@, selector@) == Some(t@),
            None => first_match_text(html@, selector@) is None,
        },
{
    let selector = match scraper::Selector::parse(selector) {
        Ok(s) => s,
        Err(_) => return None,
    };
    let document = scraper::Html::parse_document(html);
    document.select(&selector).next().map(|el| el.text().collect::<String>())
}

/// The CSS selector of the element that shows the USD/IDR quote on the finance page.
pub open spec fn quote_selector() -> Seq<char> {
    "div.YMlKec.fxKbKc"@
}

/// The USD/IDR price shown on a fetched finance page: the text of the quote element without
/// surrounding white space; `None` when the page has no quote element.
pub fn extract_usd_idr_price(html: &str) -> (res: Option<String>)
    ensures
        match first_match_text(html@, quote_selector()) {
            Some(t) => res matches Some(p) && p@ == trim_spec(t),
            None => res is None,
        },
{
    let text = select_first_text(html, "div.YMlKec.fxKbKc");
    match text {
        Some(t) => quote_price(Some(t.as_str())),
        None => quote_price(None),
    }
}

/// The price shown by the text of a quote element: that text without surrounding white
/// space; `None` when there is no quote element.
pub fn quote_price(text: Option<&str>) -> (res: Option<String>)
    ensures
        match text {
            Some(t) => res matches Some(p) && p@ == trim_spec(t@),
            None => res is None,
        },
{
    match text {
        Some(t) => Some(string_of(&trim_chars(&chars_of(t)))),
        None => None,
    }
}

/// One entry of the USD/IDR history: the quoted price and the WIB time it was seen.
pub struct UsdIdrEntry {
    pub price: String,
    pub time: String,
}

/// No two neighbouring entries of `entries` quote the same price.
pub open spec fn no_repeated_prices(entries: Seq<UsdIdrEntry>) -> bool {
    forall|i: int| 0 < i < entries.len() ==> #[trigger] entries[i].price@ != entries[i - 1].price@
}

/// A price is recorded when the history is empty or its latest price differs.
pub open spec fn price_changed(entries: Seq<UsdIdrEntry>, price: Seq<char>) -> bool {
    entries.len() == 0 || entries.last().price@ != price
}

/// A fetched price is recorded exactly when the history is empty or the whole text of its
/// latest price differs from the whole text of the fetched one: a price equal to the latest is
/// never recorded, and any other text, however little it differs, always is.
pub proof fn law_price_change_is_text_inequality(entries: Seq<UsdIdrEntry>, price: Seq<char>)
    ensures
        entries.len() == 0 ==> price_changed(entries, price),
        entries.len() > 0 && entries[entries.len() - 1].price@ == price ==> !price_changed(
            entries,
            price,
        ),
        entries.len() > 0 && entries[entries.len() - 1].price@ != price ==> price_changed(
            entries,
            price,
        ),
{
}

/// Whether `price` differs from the latest price of the history (or the history is empty).
pub fn usd_price_changed(history: &BoundedHistory<UsdIdrEntry>, price: &String) -> (res: bool)
    ensures
        res == price_changed(history@, price@),
{
    match history.latest() {
        None => true,
        Some(last) => !(last.price == *price),
    }
}

/// Records a freshly fetched USD/IDR price, stamped with the current WIB time, when it differs
/// from the latest one. True when the history changed.
pub fn record_usd_price(history: &mut BoundedHistory<UsdIdrEntry>, price: String) -> (changed:
    bool)
    requires
        old(history).wf(),
    ensures
        final(history).wf(),
        final(history).spec_capacity() == old(history).spec_capacity(),
        changed == price_changed(old(history)@, price@),
        !changed ==> final(history)@ == old(history)@,
        changed ==> {
            let entry = final(history)@.last();
            &&& final(history)@ == pushed_bounded(
                old(history)@,
                old(history).spec_capacity(),
                entry,
            )
            &&& entry.price@ == price@
            &&& exists|now: u64| entry.time@ == wib_clock(now as nat)
        },
        no_repeated_prices(old(history)@) ==> no_repeated_prices(final(history)@),
{
    if !usd_price_changed(history, &price) {
        return false;
    }
    let time = current_wib_time();
    let ghost before = history@;
    let ghost p = price@;
    history.push(UsdIdrEntry { price, time });
    proof {
        let after = history@;
        if no_repeated_prices(before) {
            assert forall|i: int| 0 < i < after.len() implies #[trigger] after[i].price@
                != after[i - 1].price@ by {
                if before.len() >= history.spec_capacity() && before.len() > 0 {
                    assert(after =~= before.drop_first().push(after.last()));
                    if i < after.len() - 1 {
                        assert(after[i] == before[i + 1]);
                        assert(after[i - 1] == before[i]);
                    } else {
                        assert(after[i - 1] == before.last());
                    }
                } else {
                    if i < after.len() - 1 {
                        assert(after[i] == before[i]);
                        assert(after[i - 1] == before[i - 1]);
                    } else {
                        assert(after[i - 1] == before.last());
                    }
                }
            }
        }
    }
    true
}

} // verus!
