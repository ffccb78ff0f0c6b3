//! Shared, immutable strings: a run of cells holds one allocation.

use std::rc::Rc;
use vstd::prelude::*;

verus! {

/// `Rc::<str>::from(&str)`: the new string holds the same characters.
#[verifier::external_body]
pub(crate) fn shared_str(s: &str) -> (r: Rc<str>)
    ensures
        r@ == s@,
{
    Rc::from(s)
}

/// `Rc::<str>::clone`: the clone is the same string.
#[verifier::external_body]
pub(crate) fn share(s: &Rc<str>) -> (r: Rc<str>)
    ensures
        r == *s,
{
    s.clone()
}

/// The text of an optional shared string.
pub open spec fn link_text(link: Option<Rc<str>>) -> Option<Seq<char>> {
    match link {
        Some(uri) => Some(uri@),
        None => None,
    }
}

pub(crate) fn share_link(link: &Option<Rc<str>>) -> (r: Option<Rc<str>>)
    ensures
        r == *link,
{
    match link {
        Some(uri) => Some(share(uri)),
        None => None,
    }
}

} // verus!
