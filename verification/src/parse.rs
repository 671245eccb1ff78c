//! Reading one value, and a list of values, from the text of a source.

use crate::error::{CfgError, CfgErrorView};
use crate::scalar::Scalar;
use crate::text::{split, split_text, trim, trimmed, views};
use vstd::prelude::*;

verus! {

/// What the text `raw`, found under `key`, is bound to as a `T`: the value
/// that the type reads from it, or a parse error that tells the key, the
/// text, the type and the type's own cause.
pub open spec fn scalar_result<T: Scalar>(key: Seq<char>, raw: Seq<char>) -> Result<
    T::V,
    CfgErrorView,
> {
    match T::parsed(raw) {
        Ok(v) => Ok(v),
        Err(cause) => Err(
            CfgErrorView::ParseError { key, value: raw, ty: T::descriptor(), source: cause },
        ),
    }
}

/// The items among `parts`: each part trimmed, the empty ones left out,
/// in the order of the parts.
pub open spec fn kept_items(parts: Seq<Seq<char>>) -> Seq<Seq<char>>
    decreases parts.len(),
{
    if parts.len() == 0 {
        Seq::empty()
    } else {
        let before = kept_items(parts.drop_last());
        let item = trimmed(parts.last());
        if item.len() == 0 {
            before
        } else {
            before.push(item)
        }
    }
}

/// The items of the list text `raw` with the delimiter `sep`. An empty
/// delimiter delimits nothing: the list has no items then.
pub open spec fn list_items(raw: Seq<char>, sep: Seq<char>) -> Seq<Seq<char>> {
    if sep.len() == 0 {
        Seq::empty()
    } else {
        kept_items(split(raw, sep))
    }
}

/// What the items of a list are bound to: their values in order, or the
/// error of the first item that is no value.
pub open spec fn items_result<T: Scalar>(key: Seq<char>, items: Seq<Seq<char>>) -> Result<
    Seq<T::V>,
    CfgErrorView,
>
    decreases items.len(),
{
    if items.len() == 0 {
        Ok(Seq::empty())
    } else {
        match items_result::<T>(key, items.drop_last()) {
            Err(e) => Err(e),
            Ok(values) => match scalar_result::<T>(key, items.last()) {
                Err(e) => Err(e),
                Ok(v) => Ok(values.push(v)),
            },
        }
    }
}

/// What the list text `raw`, found under `key`, is bound to.
pub open spec fn list_result<T: Scalar>(key: Seq<char>, raw: Seq<char>, sep: Seq<char>) -> Result<
    Seq<T::V>,
    CfgErrorView,
> {
    items_result::<T>(key, list_items(raw, sep))
}

/// The views of the values in `values`.
pub open spec fn value_views<T: View>(values: Seq<T>) -> Seq<T::V> {
    values.map_values(|v: T| v@)
}

/// Parses `raw` as a `T`; `key` is where the text was found.
pub fn parse_scalar<T: Scalar>(key: &str, raw: String) -> (r: Result<T, CfgError>)
    ensures
        match r {
            Ok(v) => scalar_result::<T>(key@, raw@) == Ok::<T::V, CfgErrorView>(v@),
            Err(e) => scalar_result::<T>(key@, raw@) == Err::<T::V, CfgErrorView>(e@),
        },
{
    match T::parse(raw.as_str()) {
        Ok(v) => Ok(v),
        Err(cause) => Err(
            CfgError::ParseError {
                key: key.to_owned(),
                value: raw,
                ty: T::name().to_owned(),
                source: cause,
            },
        ),
    }
}

/// The items of the list text `raw` with the delimiter `sep`.
pub fn split_items<'a>(raw: &'a str, sep: &str) -> (r: Vec<&'a str>)
    ensures
        views(r@) == list_items(raw@, sep@),
{
    let mut items: Vec<&'a str> = Vec::new();
    if sep.is_empty() {
        return items;
    }
    let parts = split_text(raw, sep);
    let n: usize = parts.len();
    let mut p: usize = 0;
    while p < n
        invariant
            p <= n,
            n == parts.len(),
            views(items@) == kept_items(views(parts@).take(p as int)),
        decreases n - p,
    {
        let item = trim(parts[p]);
        proof {
            let upto = views(parts@).take(p + 1);
            assert(upto.drop_last() =~= views(parts@).take(p as int));
        }
        if !item.is_empty() {
            items.push(item);
        }
        p += 1;
    }
    proof {
        assert(views(parts@).take(n as int) =~= views(parts@));
    }
    items
}

/// Once an item is no value, the list is none, whatever follows.
pub proof fn lemma_first_error_stays<T: Scalar>(key: Seq<char>, items: Seq<Seq<char>>, upto: int)
    requires
        0 <= upto <= items.len(),
        items_result::<T>(key, items.take(upto)) is Err,
    ensures
        items_result::<T>(key, items) == items_result::<T>(key, items.take(upto)),
    decreases items.len() - upto,
{
    if upto == items.len() {
        assert(items.take(upto) =~= items);
    } else {
        assert(items.take(upto + 1).drop_last() =~= items.take(upto));
        lemma_first_error_stays::<T>(key, items, upto + 1);
    }
}

/// Splits `raw` at `sep` and parses each item as a `T`.
pub fn parse_vec<T: Scalar>(key: &str, raw: String, sep: &str) -> (r: Result<Vec<T>, CfgError>)
    ensures
        match r {
            Ok(values) => list_result::<T>(key@, raw@, sep@) == Ok::<Seq<T::V>, CfgErrorView>(
                value_views(values@),
            ),
            Err(e) => list_result::<T>(key@, raw@, sep@) == Err::<Seq<T::V>, CfgErrorView>(e@),
        },
{
    let mut out: Vec<T> = Vec::new();
    let items = split_items(raw.as_str(), sep);
    let n: usize = items.len();
    let mut i: usize = 0;
    proof {
        assert(value_views(out@) =~= Seq::<T::V>::empty());
    }
    while i < n
        invariant
            i <= n,
            n == items.len(),
            views(items@) == list_items(raw@, sep@),
            items_result::<T>(key@, views(items@).take(i as int)) == Ok::<
                Seq<T::V>,
                CfgErrorView,
            >(value_views(out@)),
        decreases n - i,
    {
        proof {
            let upto = views(items@).take(i + 1);
            assert(upto.drop_last() =~= views(items@).take(i as int));
        }
        match parse_scalar::<T>(key, items[i].to_owned()) {
            Ok(v) => {
                proof {
                    assert(value_views(out@.push(v)) =~= value_views(out@).push(v@));
                }
                out.push(v);
            },
            Err(e) => {
                proof {
                    lemma_first_error_stays::<T>(key@, views(items@), i + 1);
                }
                return Err(e);
            },
        }
        i += 1;
    }
    proof {
        assert(views(items@).take(n as int) =~= views(items@));
    }
    Ok(out)
}

} // verus!
