//! An owned list of argument strings that many argument shapes convert into.
use vstd::prelude::*;
use crate::flag::{clone_strings, str_views};
use crate::text::{owned, views};

verus! {

/// An owned list of arguments.
#[derive(Debug)]
pub struct StringVec {
    vec: Vec<String>,
}

impl View for StringVec {
    type V = Seq<Seq<char>>;

    closed spec fn view(&self) -> Seq<Seq<char>> {
        views(self.vec@)
    }
}

/// Copies each string slice into an owned string, in order.
pub fn strs_to_strings(v: &[&str]) -> (r: Vec<String>)
    ensures
        views(r@) == str_views(v@),
{
    let mut r: Vec<String> = Vec::new();
    let mut i: usize = 0;
    while i < v.len()
        invariant
            i <= v@.len(),
            views(r@) == str_views(v@).take(i as int),
        decreases v@.len() - i,
    {
        let ghost prev = views(r@);
        let item = owned(v[i]);
        r.push(item);
        proof {
            assert(views(r@) =~= prev.push(v@[i as int]@));
            assert(str_views(v@).take(i + 1) =~= str_views(v@).take(i as int).push(v@[i as int]@));
        }
        i = i + 1;
    }
    proof {
        assert(str_views(v@).take(v@.len() as int) =~= str_views(v@));
    }
    r
}

impl StringVec {
    /// The arguments as a vector of strings.
    pub fn as_vec(&self) -> (r: &Vec<String>)
        ensures
            views(r@) == self@,
    {
        &self.vec
    }

    /// Gives up the list, returning its strings.
    pub fn into_vec(self) -> (r: Vec<String>)
        ensures
            views(r@) == self@,
    {
        self.vec
    }

    /// Number of arguments.
    pub fn len(&self) -> (n: usize)
        ensures
            n == self@.len(),
    {
        self.vec.len()
    }
}

impl Clone for StringVec {
    fn clone(&self) -> (r: StringVec)
        ensures
            r@ == self@,
    {
        StringVec { vec: clone_strings(&self.vec) }
    }
}

impl std::ops::Deref for StringVec {
    type Target = Vec<String>;

    fn deref(&self) -> (r: &Vec<String>)
        ensures
            views(r@) == self@,
    {
        &self.vec
    }
}

impl From<StringVec> for Vec<String> {
    fn from(val: StringVec) -> (r: Vec<String>)
        ensures
            views(r@) == val@,
    {
        val.vec
    }
}

impl vstd::std_specs::convert::FromSpecImpl<StringVec> for Vec<String> {
    open spec fn obeys_from_spec() -> bool {
        false
    }

    open spec fn from_spec(v: StringVec) -> Vec<String> {
        vstd::pervasive::arbitrary()
    }
}

impl<'b, const N: usize> From<[&'b str; N]> for StringVec {
    fn from(slice: [&'b str; N]) -> (r: StringVec)
        ensures
            r@ == str_views(slice@),
    {
        StringVec { vec: strs_to_strings(slice.as_slice()) }
    }
}

impl<'b, const N: usize> vstd::std_specs::convert::FromSpecImpl<[&'b str; N]> for StringVec {
    open spec fn obeys_from_spec() -> bool {
        false
    }

    open spec fn from_spec(v: [&'b str; N]) -> StringVec {
        vstd::pervasive::arbitrary()
    }
}

impl<'a, 'b> From<&'a [&'b str]> for StringVec {
    fn from(slice: &'a [&'b str]) -> (r: StringVec)
        ensures
            r@ == str_views(slice@),
    {
        StringVec { vec: strs_to_strings(slice) }
    }
}

impl<'a, 'b> vstd::std_specs::convert::FromSpecImpl<&'a [&'b str]> for StringVec {
    open spec fn obeys_from_spec() -> bool {
        false
    }

    open spec fn from_spec(v: &'a [&'b str]) -> StringVec {
        vstd::pervasive::arbitrary()
    }
}

impl From<Vec<String>> for StringVec {
    fn from(vec: Vec<String>) -> (r: StringVec)
        ensures
            r@ == views(vec@),
    {
        StringVec { vec }
    }
}

impl vstd::std_specs::convert::FromSpecImpl<Vec<String>> for StringVec {
    open spec fn obeys_from_spec() -> bool {
        false
    }

    open spec fn from_spec(v: Vec<String>) -> StringVec {
        vstd::pervasive::arbitrary()
    }
}

impl<'a> From<&'a [String]> for StringVec {
    fn from(slice: &'a [String]) -> (r: StringVec)
        ensures
            r@ == views(slice@),
    {
        let mut v: Vec<String> = Vec::new();
        let mut i: usize = 0;
        while i < slice.len()
            invariant
                i <= slice@.len(),
                views(v@) == views(slice@).take(i as int),
            decreases slice@.len() - i,
        {
            let ghost prev = views(v@);
            let item = slice[i].clone();
            v.push(item);
            proof {
                assert(views(v@) =~= prev.push(slice@[i as int]@));
                assert(views(slice@).take(i + 1) =~= views(slice@).take(i as int).push(slice@[i as int]@));
            }
            i = i + 1;
        }
        proof {
            assert(views(slice@).take(slice@.len() as int) =~= views(slice@));
        }
        StringVec { vec: v }
    }
}

impl<'a> vstd::std_specs::convert::FromSpecImpl<&'a [String]> for StringVec {
    open spec fn obeys_from_spec() -> bool {
        false
    }

    open spec fn from_spec(v: &'a [String]) -> StringVec {
        vstd::pervasive::arbitrary()
    }
}

impl<'b> From<Vec<&'b str>> for StringVec {
    fn from(vec: Vec<&'b str>) -> (r: StringVec)
        ensures
            r@ == str_views(vec@),
    {
        StringVec { vec: strs_to_strings(vec.as_slice()) }
    }
}

impl<'b> vstd::std_specs::convert::FromSpecImpl<Vec<&'b str>> for StringVec {
    open spec fn obeys_from_spec() -> bool {
        false
    }

    open spec fn from_spec(v: Vec<&'b str>) -> StringVec {
        vstd::pervasive::arbitrary()
    }
}

} // verus!
