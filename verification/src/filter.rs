//! Filters that restrict which devices the browser's device picker offers.

use vstd::prelude::*;

verus! {

/// A filter for `request_device`. A `None` field places no restriction.
#[derive(Debug, Default, Clone, Copy, PartialEq, Eq)]
pub struct RequestFilter {
    pub vendor_id: Option<u16>,
    pub product_id: Option<u16>,
    pub usage_page: Option<u16>,
    pub usage: Option<u16>,
}

/// A filter as the WebHID request takes it: the vendor id is a 32-bit number
/// there. Only the fields that are `Some` are set on the request.
#[derive(Debug, Clone, Copy, PartialEq, Eq)]
pub struct DeviceFilter {
    pub vendor_id: Option<u32>,
    pub product_id: Option<u16>,
    pub usage_page: Option<u16>,
    pub usage: Option<u16>,
}

/// A filter that restricts something: one that has at least one field set.
pub open spec fn restricts(f: RequestFilter) -> bool {
    f.vendor_id is Some || f.product_id is Some || f.usage_page is Some || f.usage is Some
}

pub open spec fn device_filter_of(f: RequestFilter) -> DeviceFilter {
    DeviceFilter {
        vendor_id: match f.vendor_id { Some(v) => Some(v as u32), None => None },
        product_id: f.product_id,
        usage_page: f.usage_page,
        usage: f.usage,
    }
}

/// The filters that a request carries: those that restrict something, in their
/// order, each with the fields it sets.
pub open spec fn built_filters(filters: Seq<RequestFilter>) -> Seq<DeviceFilter>
    decreases filters.len(),
{
    if filters.len() == 0 {
        Seq::empty()
    } else {
        let rest = built_filters(filters.drop_last());
        if restricts(filters.last()) {
            rest.push(device_filter_of(filters.last()))
        } else {
            rest
        }
    }
}

/// The filter that sets no field.
pub open spec fn empty_filter() -> RequestFilter {
    RequestFilter { vendor_id: None, product_id: None, usage_page: None, usage: None }
}

/// A filter restricts something exactly when it is not the filter that sets no
/// field: setting any one field, whichever, is enough.
pub proof fn lemma_restricts_unless_empty(f: RequestFilter)
    ensures
        restricts(f) <==> f != empty_filter(),
        f.vendor_id is Some ==> restricts(f),
        f.product_id is Some ==> restricts(f),
        f.usage_page is Some ==> restricts(f),
        f.usage is Some ==> restricts(f),
{
}

/// Adding a filter to a request adds nothing where it sets no field, and
/// otherwise appends a filter with the same fields, the vendor id widened.
pub proof fn lemma_built_filters_step(filters: Seq<RequestFilter>, f: RequestFilter)
    ensures
        f == empty_filter() ==> built_filters(filters.push(f)) == built_filters(filters),
        f != empty_filter() ==> built_filters(filters.push(f)) == built_filters(filters).push(DeviceFilter {
            vendor_id: match f.vendor_id { Some(v) => Some(v as u32), None => None },
            product_id: f.product_id,
            usage_page: f.usage_page,
            usage: f.usage,
        }),
        built_filters(Seq::<RequestFilter>::empty()) == Seq::<DeviceFilter>::empty(),
{
    assert(filters.push(f).drop_last() =~= filters);
}

/// Whether a filter restricts anything.
pub fn filter_restricts(f: &RequestFilter) -> (r: bool)
    ensures
        r == restricts(*f),
        r <==> *f != empty_filter(),
{
    f.vendor_id.is_some() || f.product_id.is_some() || f.usage_page.is_some() || f.usage.is_some()
}

/// The filter as the request takes it.
pub fn to_device_filter(f: &RequestFilter) -> (d: DeviceFilter)
    ensures
        d == device_filter_of(*f),
{
    DeviceFilter {
        vendor_id: match f.vendor_id {
            Some(v) => Some(v as u32),
            None => None,
        },
        product_id: f.product_id,
        usage_page: f.usage_page,
        usage: f.usage,
    }
}

/// The filters for a device request: filters with no field set are dropped, so
/// that an empty filter does not stand for "any device" in the request; the
/// others keep their order. No filter left means the picker shows every device.
pub fn build_filters(filters: &[RequestFilter]) -> (built: Vec<DeviceFilter>)
    ensures
        built@ == built_filters(filters@),
        built@.len() <= filters@.len(),
        filters@.len() == 1 && filters@[0] != empty_filter() ==> built@ == seq![DeviceFilter {
            vendor_id: match filters@[0].vendor_id { Some(v) => Some(v as u32), None => None },
            product_id: filters@[0].product_id,
            usage_page: filters@[0].usage_page,
            usage: filters@[0].usage,
        }],
{
    proof {
        lemma_built_filters_are_restrictive(filters@);
        if filters@.len() == 1 {
            lemma_built_filters_step(Seq::<RequestFilter>::empty(), filters@[0]);
            assert(Seq::<RequestFilter>::empty().push(filters@[0]) =~= filters@);
        }
    }
    let mut built: Vec<DeviceFilter> = Vec::new();
    let mut i: usize = 0;
    while i < filters.len()
        invariant
            i <= filters.len(),
            built@ == built_filters(filters@.take(i as int)),
        decreases filters.len() - i,
    {
        let f = &filters[i];
        proof {
            let next = filters@.take(i + 1);
            assert(next.drop_last() =~= filters@.take(i as int));
            assert(next.last() == filters@[i as int]);
        }
        if filter_restricts(f) {
            built.push(to_device_filter(f));
        }
        i = i + 1;
    }
    assert(filters@.take(filters.len() as int) =~= filters@);
    built
}

/// Filters that set no field are never carried: a request made only of such
/// filters carries none, and so offers every device; a request whose filters
/// all set a field carries each of them, in the order given.
pub proof fn lemma_built_filters_are_restrictive(filters: Seq<RequestFilter>)
    ensures
        built_filters(filters).len() <= filters.len(),
        (forall|i: int| 0 <= i < filters.len() ==> !restricts(#[trigger] filters[i]))
            ==> built_filters(filters).len() == 0,
        (forall|i: int| 0 <= i < filters.len() ==> restricts(#[trigger] filters[i]))
            ==> built_filters(filters) == filters.map_values(|f: RequestFilter| device_filter_of(f)),
    decreases filters.len(),
{
    if filters.len() > 0 {
        let init = filters.drop_last();
        lemma_built_filters_are_restrictive(init);
        if forall|i: int| 0 <= i < filters.len() ==> restricts(#[trigger] filters[i]) {
            assert(forall|i: int| 0 <= i < init.len() ==> restricts(#[trigger] init[i])) by {
                assert forall|i: int| 0 <= i < init.len() implies restricts(#[trigger] init[i]) by {
                    assert(init[i] == filters[i]);
                }
            }
            assert(restricts(filters[filters.len() - 1]));
            assert(built_filters(filters) =~= filters.map_values(|f: RequestFilter| device_filter_of(f)));
        }
        if forall|i: int| 0 <= i < filters.len() ==> !restricts(#[trigger] filters[i]) {
            assert(forall|i: int| 0 <= i < init.len() ==> !restricts(#[trigger] init[i])) by {
                assert forall|i: int| 0 <= i < init.len() implies !restricts(#[trigger] init[i]) by {
                    assert(init[i] == filters[i]);
                }
            }
            assert(!restricts(filters[filters.len() - 1]));
        }
    }
}

} // verus!
