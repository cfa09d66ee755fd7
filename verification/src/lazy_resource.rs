//! Lazily created program resources: a value made by a factory the first
//! time it is needed, with an optional callback that receives the value
//! when the resource is dropped.
use vstd::prelude::*;

verus! {

/// What makes the value of a lazy resource; it is used once.
pub trait Factory<T>: Send + Sync {
    /// Whether `v` is a value this factory may make.
    spec fn makes(&self, v: T) -> bool;

    /// Makes the value.
    fn make(self: Box<Self>) -> (r: T)
        ensures
            (*self).makes(r),
    ;
}

/// What receives the value of a lazy resource when the resource is
/// dropped; it is used once.
pub trait Finisher<T>: Send + Sync {
    /// Whether the callback has run on `v` (what it guarantees once it
    /// has).
    spec fn took(&self, v: T) -> bool;

    /// Hands the value over.
    fn finish(self: Box<Self>, value: T)
        ensures
            (*self).took(value),
    ;
}

/// A factory given as a closure that may be called.
#[verifier::reject_recursive_types(T)]
pub(crate) struct ClosureFactory<T, F: FnMut() -> T> {
    f: F,
    made: core::marker::PhantomData<T>,
}

impl<T, F: FnMut() -> T> ClosureFactory<T, F> {
    #[verifier::type_invariant]
    spec fn callable(self) -> bool {
        call_requires(self.f, ())
    }

    /// The closure the factory calls.
    pub closed spec fn func(self) -> F {
        self.f
    }

    /// The factory calling `f`.
    pub(crate) fn new(f: F) -> (r: ClosureFactory<T, F>)
        requires
            call_requires(f, ()),
        ensures
            r.func() == f,
    {
        ClosureFactory { f, made: core::marker::PhantomData }
    }
}

impl<T: Send + Sync, F: FnMut() -> T + Send + Sync> Factory<T> for ClosureFactory<T, F> {
    open spec fn makes(&self, v: T) -> bool {
        call_ensures(self.func(), (), v)
    }

    fn make(self: Box<Self>) -> (r: T)
        ensures
            call_ensures((*self).func(), (), r),
    {
        let this = *self;
        proof {
            use_type_invariant(&this);
        }
        let ClosureFactory { f, made: _ } = this;
        let mut f = f;
        f()
    }
}

/// The factory that makes `T::default()`.
pub struct DefaultFactory;

impl<T: Default + Send + Sync> Factory<T> for DefaultFactory {
    open spec fn makes(&self, v: T) -> bool {
        call_ensures(T::default, (), v)
    }

    fn make(self: Box<Self>) -> (r: T)
        ensures
            call_ensures(T::default, (), r),
    {
        T::default()
    }
}

/// A drop callback given as a closure that accepts any value.
#[verifier::reject_recursive_types(T)]
pub(crate) struct ClosureFinisher<T, D: FnOnce(T)> {
    d: D,
    given: core::marker::PhantomData<T>,
}

impl<T, D: FnOnce(T)> ClosureFinisher<T, D> {
    #[verifier::type_invariant]
    spec fn accepts_all(self) -> bool {
        forall|v: T| call_requires(self.d, (v,))
    }

    /// The closure the callback calls.
    pub closed spec fn func(self) -> D {
        self.d
    }

    /// The callback calling `d`.
    pub(crate) fn new(d: D) -> (r: ClosureFinisher<T, D>)
        requires
            forall|v: T| call_requires(d, (v,)),
        ensures
            r.func() == d,
    {
        ClosureFinisher { d, given: core::marker::PhantomData }
    }
}

impl<T: Send + Sync, D: FnOnce(T) + Send + Sync> Finisher<T> for ClosureFinisher<T, D> {
    open spec fn took(&self, v: T) -> bool {
        call_ensures(self.func(), (v,), ())
    }

    fn finish(self: Box<Self>, value: T) {
        let this = *self;
        proof {
            use_type_invariant(&this);
        }
        let ClosureFinisher { d, given: _ } = this;
        d(value)
    }
}

/// A program resource whose value is made on first use.
#[verifier::reject_recursive_types(T)]
pub struct LazyRes<T: Send + Sync + 'static> {
    value: Option<T>,
    init: Option<Box<dyn Factory<T>>>,
    on_drop: Option<Box<dyn Finisher<T>>>,
    /// The values the resource's factory may make.
    maker: Ghost<spec_fn(T) -> bool>,
    /// What the drop callback guarantees once it has run on a value.
    taker: Ghost<spec_fn(T) -> bool>,
}

impl<T: Send + Sync + 'static> LazyRes<T> {
    /// Whether the value has been made.
    pub closed spec fn initialized(&self) -> bool {
        self.value is Some
    }

    /// The value, once it has been made.
    pub closed spec fn value(&self) -> T {
        self.value->0
    }

    /// Whether a drop callback is set.
    pub closed spec fn has_drop_callback(&self) -> bool {
        self.on_drop is Some
    }

    /// Whether `v` is a value the resource's factory may make: what the
    /// factory's closure guarantees of its result.
    pub closed spec fn makes(&self, v: T) -> bool {
        (self.maker@)(v)
    }

    /// What the drop callback guarantees once it has run on `v`.
    pub closed spec fn drop_took(&self, v: T) -> bool {
        (self.taker@)(v)
    }

    /// The record of the drop callback describes the callback set, if any.
    /// Every resource keeps this, whatever is done to it.
    pub closed spec fn callback_recorded(&self) -> bool {
        self.on_drop matches Some(d) ==> forall|v: T| #[trigger] d.took(v) == (self.taker@)(v)
    }

    /// The resource can produce its value: it holds the value or a factory
    /// for it, and the ghost records describe its factory and callback.
    pub closed spec fn wf(&self) -> bool {
        &&& self.value is Some || self.init is Some
        &&& self.init matches Some(f) ==> forall|v: T| #[trigger] f.makes(v) == (self.maker@)(v)
        &&& self.callback_recorded()
    }

    /// A resource made by `f` on first use.
    pub fn new<F: FnMut() -> T + Send + Sync + 'static>(f: F) -> (r: LazyRes<T>)
        requires
            call_requires(f, ()),
        ensures
            r.wf(),
            !r.initialized(),
            !r.has_drop_callback(),
            forall|v: T| #[trigger] r.makes(v) == call_ensures(f, (), v),
    {
        let c = ClosureFactory::new(f);
        let ghost gc = c;
        let r = LazyRes {
            value: None,
            init: Some(Box::new(c)),
            on_drop: None,
            maker: Ghost(|v: T| call_ensures(f, (), v)),
            taker: Ghost(|v: T| true),
        };
        proof {
            let g = r.init->0;
            assert forall|v: T| #[trigger] g.makes(v) == (r.maker@)(v) by {
                assert(gc.makes(v) == call_ensures(f, (), v));
            }
        }
        r
    }

    /// A resource made by `f` on first use whose value, if it was made, is
    /// handed to `on_drop` when the resource is dropped.
    pub fn new_with_drop<F: FnMut() -> T + Send + Sync + 'static, D: FnOnce(T) + Send + Sync + 'static>(
        f: F,
        on_drop: D,
    ) -> (r: LazyRes<T>)
        requires
            call_requires(f, ()),
            forall|v: T| call_requires(on_drop, (v,)),
        ensures
            r.wf(),
            !r.initialized(),
            r.has_drop_callback(),
            forall|v: T| #[trigger] r.makes(v) == call_ensures(f, (), v),
            forall|v: T| #[trigger] r.drop_took(v) == call_ensures(on_drop, (v,), ()),
    {
        let c = ClosureFactory::new(f);
        let ghost gc = c;
        let e = ClosureFinisher::new(on_drop);
        let ghost ge = e;
        let r = LazyRes {
            value: None,
            init: Some(Box::new(c)),
            on_drop: Some(Box::new(e)),
            maker: Ghost(|v: T| call_ensures(f, (), v)),
            taker: Ghost(|v: T| call_ensures(on_drop, (v,), ())),
        };
        proof {
            let g = r.init->0;
            let h = r.on_drop->0;
            assert forall|v: T| #[trigger] g.makes(v) == (r.maker@)(v) by {
                assert(gc.makes(v) == call_ensures(f, (), v));
            }
            assert forall|v: T| #[trigger] h.took(v) == (r.taker@)(v) by {
                assert(ge.took(v) == call_ensures(on_drop, (v,), ()));
            }
        }
        r
    }

    /// This resource with `on_drop` as its drop callback, replacing any.
    pub fn with_on_drop<D: FnOnce(T) + Send + Sync + 'static>(self, on_drop: D) -> (r: LazyRes<T>)
        requires
            self.wf(),
            forall|v: T| call_requires(on_drop, (v,)),
        ensures
            r.wf(),
            r.initialized() == self.initialized(),
            self.initialized() ==> r.value() == self.value(),
            r.has_drop_callback(),
            forall|v: T| #[trigger] r.makes(v) == self.makes(v),
            forall|v: T| #[trigger] r.drop_took(v) == call_ensures(on_drop, (v,), ()),
    {
        let mut s = self;
        s.set_on_drop(on_drop);
        s
    }

    /// Sets `on_drop` as the drop callback, replacing any.
    pub fn set_on_drop<D: FnOnce(T) + Send + Sync + 'static>(&mut self, on_drop: D)
        requires
            old(self).wf(),
            forall|v: T| call_requires(on_drop, (v,)),
        ensures
            final(self).wf(),
            final(self).initialized() == old(self).initialized(),
            old(self).initialized() ==> final(self).value() == old(self).value(),
            final(self).has_drop_callback(),
            forall|v: T| #[trigger] final(self).makes(v) == old(self).makes(v),
            forall|v: T| #[trigger] final(self).drop_took(v) == call_ensures(on_drop, (v,), ()),
    {
        let e = ClosureFinisher::new(on_drop);
        let ghost ge = e;
        self.on_drop = Some(Box::new(e));
        self.taker = Ghost(|v: T| call_ensures(on_drop, (v,), ()));
        proof {
            let h = self.on_drop->0;
            assert forall|v: T| #[trigger] h.took(v) == (self.taker@)(v) by {
                assert(ge.took(v) == call_ensures(on_drop, (v,), ()));
            }
        }
    }

    /// Whether the value has been made.
    pub fn is_initialized(&self) -> (r: bool)
        ensures
            r == self.initialized(),
    {
        self.value.is_some()
    }

    /// Makes the value if it is not made yet; the factory is used once and
    /// then dropped.
    fn force_init(&mut self)
        requires
            old(self).wf(),
        ensures
            final(self).wf(),
            final(self).initialized(),
            old(self).initialized() ==> final(self).value() == old(self).value(),
            !old(self).initialized() ==> old(self).makes(final(self).value()),
            final(self).has_drop_callback() == old(self).has_drop_callback(),
            final(self).maker == old(self).maker,
            final(self).taker == old(self).taker,
    {
        if self.value.is_none() {
            match self.init.take() {
                Some(f) => {
                    let v = f.make();
                    self.value = Some(v);
                },
                None => {},
            }
        }
    }

    /// The value, made first if needed.
    pub fn get_ref(&mut self) -> (r: &T)
        requires
            old(self).wf(),
        ensures
            final(self).wf(),
            final(self).initialized(),
            *r == final(self).value(),
            old(self).initialized() ==> final(self).value() == old(self).value(),
            !old(self).initialized() ==> old(self).makes(final(self).value()),
            final(self).has_drop_callback() == old(self).has_drop_callback(),
            forall|v: T| #[trigger] final(self).makes(v) == old(self).makes(v),
            forall|v: T| #[trigger] final(self).drop_took(v) == old(self).drop_took(v),
    {
        self.force_init();
        match &self.value {
            Some(v) => v,
            None => vstd::pervasive::unreached(),
        }
    }

    /// The value, made first if needed, to change in place.
    pub fn get_mut(&mut self) -> (r: &mut T)
        requires
            old(self).wf(),
        ensures
            final(self).wf(),
            final(self).initialized(),
            final(self).value() == *final(r),
            old(self).initialized() ==> *r == old(self).value(),
            !old(self).initialized() ==> old(self).makes(*r),
            final(self).has_drop_callback() == old(self).has_drop_callback(),
            forall|v: T| #[trigger] final(self).makes(v) == old(self).makes(v),
            forall|v: T| #[trigger] final(self).drop_took(v) == old(self).drop_took(v),
    {
        self.force_init();
        match &mut self.value {
            Some(v) => v,
            None => vstd::pervasive::unreached(),
        }
    }

    /// A clone of the value, made first if needed.
    pub fn get_clone(&mut self) -> (r: T)
        where T: Clone,
        requires
            old(self).wf(),
        ensures
            final(self).wf(),
            final(self).initialized(),
            vstd::pervasive::cloned(final(self).value(), r),
            old(self).initialized() ==> final(self).value() == old(self).value(),
            !old(self).initialized() ==> old(self).makes(final(self).value()),
            final(self).has_drop_callback() == old(self).has_drop_callback(),
            forall|v: T| #[trigger] final(self).makes(v) == old(self).makes(v),
            forall|v: T| #[trigger] final(self).drop_took(v) == old(self).drop_took(v),
    {
        let v = self.get_ref();
        v.clone()
    }

    /// The value if it was made; the drop callback is not run.
    pub fn into_inner(self) -> (r: Option<T>)
        ensures
            r == (if self.initialized() { Some(self.value()) } else { None::<T> }),
    {
        let mut s = self;
        s.on_drop = None;
        s.value.take()
    }

    /// The value, which must have been made; the drop callback is not run.
    pub fn unwrap(self) -> (r: T)
        requires
            self.initialized(),
        ensures
            r == self.value(),
    {
        match self.into_inner() {
            Some(v) => v,
            None => vstd::pervasive::unreached(),
        }
    }

    /// The value if it was made, else `default`; the drop callback is not
    /// run.
    pub fn unwrap_or(self, default: T) -> (r: T)
        ensures
            r == (if self.initialized() { self.value() } else { default }),
    {
        match self.into_inner() {
            Some(v) => v,
            None => default,
        }
    }

    /// The value if it was made, else `T::default()`; the drop callback is
    /// not run.
    pub fn unwrap_or_default(self) -> (r: T)
        where T: Default,
        ensures
            self.initialized() ==> r == self.value(),
            !self.initialized() ==> call_ensures(T::default, (), r),
    {
        let d = T::default();
        self.unwrap_or(d)
    }

    /// A resource made by `T::default()` on first use.
    pub fn lazy_default() -> (r: LazyRes<T>)
        where T: Default,
        ensures
            r.wf(),
            !r.initialized(),
            !r.has_drop_callback(),
            forall|v: T| #[trigger] r.makes(v) == call_ensures(T::default, (), v),
    {
        LazyRes::default()
    }

    /// A resource made by `f` on first use.
    pub fn lazy_init<F: FnMut() -> T + Send + Sync + 'static>(f: F) -> (r: LazyRes<T>)
        requires
            call_requires(f, ()),
        ensures
            r.wf(),
            !r.initialized(),
            !r.has_drop_callback(),
            forall|v: T| #[trigger] r.makes(v) == call_ensures(f, (), v),
    {
        LazyRes::new(f)
    }

    /// The value, if it has been made.
    pub fn made_value(&self) -> (r: Option<&T>)
        ensures
            r == (if self.initialized() { Some(&self.value()) } else { None::<&T> }),
    {
        match &self.value {
            Some(v) => Some(v),
            None => None,
        }
    }

    /// Hands the value, if it was made, to the drop callback, if one is
    /// set; the callback is used up either way. This is how a resource is
    /// let go of: dropping a resource without `release` does not run its
    /// callback, as the callback (the user's code) could unwind out of a
    /// destructor, which must not unwind.
    pub fn release(&mut self)
        requires
            old(self).callback_recorded(),
        ensures
            !final(self).has_drop_callback(),
            old(self).has_drop_callback() ==> !final(self).initialized(),
            !old(self).has_drop_callback() ==> final(self).initialized() == old(self).initialized(),
            old(self).has_drop_callback() && old(self).initialized() ==> old(self).drop_took(old(self).value()),
    {
        match self.on_drop.take() {
            Some(d) => match self.value.take() {
                Some(v) => {
                    d.finish(v);
                },
                None => {},
            },
            None => {},
        }
    }
}

impl<T: Send + Sync + Default + 'static> Default for LazyRes<T> {
    fn default() -> (r: LazyRes<T>)
        ensures
            r.wf(),
            !r.initialized(),
            !r.has_drop_callback(),
            forall|v: T| #[trigger] r.makes(v) == call_ensures(T::default, (), v),
    {
        let r = LazyRes {
            value: None,
            init: Some(Box::new(DefaultFactory)),
            on_drop: None,
            maker: Ghost(|v: T| call_ensures(T::default, (), v)),
            taker: Ghost(|v: T| true),
        };
        proof {
            let g = r.init->0;
            assert forall|v: T| #[trigger] g.makes(v) == (r.maker@)(v) by {
                assert(DefaultFactory.makes(v) == call_ensures(T::default, (), v));
            }
        }
        r
    }
}

impl<T: Send + Sync + 'static> From<T> for LazyRes<T> {
    fn from(value: T) -> (r: LazyRes<T>)
        ensures
            r.wf(),
            r.initialized(),
            r.value() == value,
            !r.has_drop_callback(),
    {
        LazyRes {
            value: Some(value),
            init: None,
            on_drop: None,
            maker: Ghost(|v: T| v == value),
            taker: Ghost(|v: T| true),
        }
    }
}

impl<T: Send + Sync + 'static> vstd::std_specs::convert::FromSpecImpl<T> for LazyRes<T> {
    open spec fn obeys_from_spec() -> bool {
        false
    }

    open spec fn from_spec(v: T) -> LazyRes<T> {
        vstd::pervasive::arbitrary()
    }
}

/// Lazy resources of any type, from the type itself.
pub trait LazyInit: Sized + Send + Sync + 'static {
    /// A resource made by `Self::default()` on first use.
    fn lazy_default() -> (r: LazyRes<Self>)
        where Self: Default,
        ensures
            r.wf(),
            !r.initialized(),
    ;

    /// A resource made by `f` on first use.
    fn lazy_init<F: FnMut() -> Self + Send + Sync + 'static>(f: F) -> (r: LazyRes<Self>)
        requires
            call_requires(f, ()),
        ensures
            r.wf(),
            !r.initialized(),
    ;
}

impl<T: Send + Sync + 'static> LazyInit for T {
    fn lazy_default() -> (r: LazyRes<T>)
        where T: Default,
    {
        LazyRes::default()
    }

    fn lazy_init<F: FnMut() -> T + Send + Sync + 'static>(f: F) -> (r: LazyRes<T>) {
        LazyRes::new(f)
    }
}

impl<T: Send + Sync + Default + Clone + 'static> crate::resource::ResourceMarker for LazyRes<T> {
    /// A copy for a new holder: a made value is cloned (without the drop
    /// callback); otherwise a fresh resource made by `T::default()`.
    fn res_clone(&self) -> (r: LazyRes<T>)
        ensures
            r.wf(),
            r.initialized() == self.initialized(),
            self.initialized() ==> vstd::pervasive::cloned(self.value(), r.value()),
            !r.has_drop_callback(),
    {
        match self.made_value() {
            Some(v) => LazyRes::from(v.clone()),
            None => LazyRes::default(),
        }
    }

    /// A resource made by `T::default()` on first use.
    fn res_default() -> (r: LazyRes<T>)
        ensures
            r.wf(),
            !r.initialized(),
            !r.has_drop_callback(),
    {
        LazyRes::default()
    }
}

} // verus!
