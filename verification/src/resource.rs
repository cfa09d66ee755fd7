//! Shared program resources and command descriptions.
use vstd::prelude::*;
use std::sync::Arc;

verus! {

/// A program resource shared between its users.
pub struct GlobalResource<ResType: 'static + Send + Sync> {
    res_arc: Arc<ResType>,
}

impl<ResType: 'static + Send + Sync> GlobalResource<ResType> {
    /// The value the resource shares.
    pub closed spec fn value(&self) -> ResType {
        *self.res_arc
    }

    /// A resource sharing `res`.
    pub fn new(res: ResType) -> (r: GlobalResource<ResType>)
        ensures
            r.value() == res,
    {
        GlobalResource { res_arc: Arc::new(res) }
    }

    /// The shared value.
    pub fn get(&self) -> (r: &ResType)
        ensures
            *r == self.value(),
    {
        &*self.res_arc
    }
}

impl<ResType: 'static + Send + Sync> From<Arc<ResType>> for GlobalResource<ResType> {
    fn from(arc: Arc<ResType>) -> (r: GlobalResource<ResType>)
        ensures
            r.value() == *arc,
    {
        GlobalResource { res_arc: arc }
    }
}

impl<ResType: 'static + Send + Sync> vstd::std_specs::convert::FromSpecImpl<Arc<ResType>> for GlobalResource<ResType> {
    open spec fn obeys_from_spec() -> bool {
        false
    }

    open spec fn from_spec(v: Arc<ResType>) -> GlobalResource<ResType> {
        vstd::pervasive::arbitrary()
    }
}

impl<ResType: 'static + Send + Sync> std::ops::Deref for GlobalResource<ResType> {
    type Target = ResType;

    fn deref(&self) -> (r: &ResType)
        ensures
            *r == self.value(),
    {
        &*self.res_arc
    }
}

/// A value that can be held as a program resource: it can be copied for a
/// new holder and has a value to start from.
pub trait ResourceMarker: Sized {
    /// A copy for a new holder.
    fn res_clone(&self) -> Self;

    /// The value a resource starts from.
    fn res_default() -> Self;
}

impl<T: Default + Clone + Send + Sync + 'static> ResourceMarker for T {
    fn res_clone(&self) -> (r: T)
        ensures
            vstd::pervasive::cloned(*self, r),
    {
        Clone::clone(self)
    }

    fn res_default() -> (r: T)
        ensures
            call_ensures(T::default, (), r),
    {
        T::default()
    }
}

/// The description of a command.
#[derive(Debug)]
pub struct Description {
    desc: String,
}

impl View for Description {
    type V = Seq<char>;

    closed spec fn view(&self) -> Seq<char> {
        self.desc@
    }
}

impl Description {
    /// The description with the text `desc`.
    pub fn new<S>(desc: S) -> (r: Description)
        where String: From<S>,
        ensures
            exists|s: String| #[trigger] call_ensures(<String as From<S>>::from, (desc,), s) && r@ == s@,
    {
        let s = String::from(desc);
        Description { desc: s }
    }

    /// The text of the description.
    pub fn as_str(&self) -> (r: &str)
        ensures
            r@ == self@,
    {
        self.desc.as_str()
    }

    /// The text of the description.
    pub fn to_string(&self) -> (r: String)
        ensures
            r@ == self@,
    {
        self.desc.clone()
    }
}

impl From<String> for Description {
    fn from(desc: String) -> (r: Description)
        ensures
            r@ == desc@,
    {
        Description { desc }
    }
}

impl vstd::std_specs::convert::FromSpecImpl<String> for Description {
    open spec fn obeys_from_spec() -> bool {
        false
    }

    open spec fn from_spec(v: String) -> Description {
        vstd::pervasive::arbitrary()
    }
}

impl<'a> From<&'a str> for Description {
    fn from(desc: &'a str) -> (r: Description)
        ensures
            r@ == desc@,
    {
        Description { desc: crate::text::owned(desc) }
    }
}

impl<'a> vstd::std_specs::convert::FromSpecImpl<&'a str> for Description {
    open spec fn obeys_from_spec() -> bool {
        false
    }

    open spec fn from_spec(v: &'a str) -> Description {
        vstd::pervasive::arbitrary()
    }
}

impl From<Description> for String {
    fn from(desc: Description) -> (r: String)
        ensures
            r@ == desc@,
    {
        desc.desc
    }
}

impl vstd::std_specs::convert::FromSpecImpl<Description> for String {
    open spec fn obeys_from_spec() -> bool {
        false
    }

    open spec fn from_spec(v: Description) -> String {
        vstd::pervasive::arbitrary()
    }
}

impl std::ops::Deref for Description {
    type Target = str;

    fn deref(&self) -> (r: &str)
        ensures
            r@ == self@,
    {
        self.desc.as_str()
    }
}

/// Data of any type that an entry of a program carries beside it, such as
/// its description. A program's author implements it for each entry.
pub trait Metadata<DataType> {
    /// The entry's data.
    fn init_metadata() -> DataType;
}

} // verus!
