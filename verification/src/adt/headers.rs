//! The header map of the crate `http`, and what is taken on trust of it.

use http::header::{HeaderMap, HeaderName, HeaderValue};
use vstd::prelude::*;

verus! {

/// The header map. Nothing of its layout is visible here.
#[verifier::external_type_specification]
#[verifier::external_body]
#[verifier::reject_recursive_types(T)]
pub struct ExHeaderMap<T>(HeaderMap<T>);

/// The value of a header. Nothing of it is read here.
#[verifier::external_type_specification]
#[verifier::external_body]
pub struct ExHeaderValue(HeaderValue);

/// The headers that a map holds: the value by the name, both as text.
pub uninterp spec fn header_entries(map: HeaderMap<HeaderValue>) -> Map<Seq<char>, Seq<char>>;

/// A number of headers that a map takes without growing beyond what it
/// allows: half of the entries that its largest table has room for.
pub const MAX_HEADERS: usize = 0x4000;

/// A name that the map takes as it stands: lowercase letters and hyphens.
pub open spec fn is_plain_name(name: Seq<char>) -> bool {
    &&& 0 < name.len() <= 64
    &&& forall|i: int| 0 <= i < name.len() ==> ('a' <= #[trigger] name[i] <= 'z') || name[i] == '-'
}

/// A value that the map takes: no control character but the tab.
pub open spec fn is_header_value(value: Seq<char>) -> bool {
    forall|i: int|
        0 <= i < value.len() ==> ((#[trigger] value[i]) as u32 >= 32 && value[i] as u32 != 127)
            || value[i] == '\t'
}

/// `HeaderMap::new`: a map without headers.
#[verifier::external_body]
pub(crate) fn headers_new() -> (map: HeaderMap<HeaderValue>)
    ensures
        header_entries(map).dom() == Set::<Seq<char>>::empty(),
{
    HeaderMap::new()
}

/// `HeaderMap::insert` of a value made by `HeaderValue::from_str` under a
/// name made by `HeaderName::from_static`. A value with a control character
/// other than the tab is refused and the map left as it was; any other value
/// is set under the name, in place of what the name had. The name has to be
/// one that `from_static` takes, and the map below its capacity: else the
/// calls panic.
#[verifier::external_body]
pub(crate) fn headers_insert(map: &mut HeaderMap<HeaderValue>, name: &'static str, value: &str) -> (set:
    bool)
    requires
        is_plain_name(name@),
        header_entries(*old(map)).dom().finite(),
        header_entries(*old(map)).len() < MAX_HEADERS,
    ensures
        set == is_header_value(value@),
        header_entries(*final(map)) == if set {
            header_entries(*old(map)).insert(name@, value@)
        } else {
            header_entries(*old(map))
        },
{
    match HeaderValue::from_str(value) {
        Ok(value) => {
            map.insert(HeaderName::from_static(name), value);
            true
        },
        Err(_) => false,
    }
}

} // verus!
