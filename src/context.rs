use vstd::prelude::*;
use vstd::std_specs::convert::FromSpec;

verus! {

/// A combination of an underlying error and additional information
/// about the error.
pub struct Context<E, C> {
    /// The underlying error
    pub error: E,
    /// Information that provides a context for the underlying error
    pub context: C,
}

/// What `context` makes of a result: the success arm is kept, an error
/// is paired with the given context.
pub open spec fn with_context_spec<T, E, C>(r: Result<T, E>, c: C) -> Result<T, Context<E, C>> {
    match r {
        Ok(t) => Ok(t),
        Err(e) => Err(Context { error: e, context: c }),
    }
}

/// Pairing keeps both parts: an error comes out with the very underlying
/// error and context it was given, and a success comes out unchanged.
pub proof fn lemma_context_keeps_parts<T, E, C>(r: Result<T, E>, c: C)
    ensures
        with_context_spec(r, c) matches Err(p) ==> r == Err::<T, E>(p.error) && p.context == c,
        with_context_spec(r, c) matches Ok(t) ==> r == Ok::<T, E>(t),
{
}

/// Additions to `Result`.
pub trait ResultExt<T, E>: Sized {
    /// The result that `self` is.
    spec fn as_result(&self) -> Result<T, E>;

    /// Extend a `Result` with additional context-sensitive information.
    fn context<C>(self, context: C) -> (r: Result<T, Context<E, C>>)
        ensures
            r == with_context_spec(self.as_result(), context),
    ;

    /// Extend a `Result` with lazily-generated context-sensitive information.
    /// The closure is called only when `self` is an error.
    fn with_context<F, C>(self, context: F) -> (r: Result<T, Context<E, C>>) where
        F: FnOnce() -> C,
        requires
            self.as_result() is Err ==> context.requires(()),
        ensures
            match self.as_result() {
                Ok(t) => r == Ok::<T, Context<E, C>>(t),
                Err(e) => exists|c: C| #[trigger] context.ensures((), c) && r == Err::<T, Context<E, C>>(Context { error: e, context: c }),
            },
    ;

    /// Extend a `Result` with additional context-sensitive information and
    /// immediately convert it to another `Result`.
    fn eager_context<C, E2>(self, context: C) -> (r: Result<T, E2>) where
        E2: From<Context<E, C>>,
        ensures
            match self.as_result() {
                Ok(t) => r == Ok::<T, E2>(t),
                Err(e) => r is Err && (E2::obeys_from_spec() ==> r == Err::<T, E2>(E2::from_spec(Context { error: e, context }))),
            },
    {
        let r = self.context(context);
        match r {
            Ok(t) => Ok(t),
            Err(ctx) => Err(E2::from(ctx)),
        }
    }

    /// Extend a `Result` with lazily-generated context-sensitive information
    /// and immediately convert it to another `Result`. The closure is called
    /// only when `self` is an error.
    fn with_eager_context<F, C, E2>(self, context: F) -> (r: Result<T, E2>) where
        F: FnOnce() -> C,
        E2: From<Context<E, C>>,
        requires
            self.as_result() is Err ==> context.requires(()),
        ensures
            match self.as_result() {
                Ok(t) => r == Ok::<T, E2>(t),
                Err(e) => r is Err && exists|c: C| #[trigger] context.ensures((), c) && (
                    E2::obeys_from_spec() ==> r == Err::<T, E2>(E2::from_spec(Context { error: e, context: c }))),
            },
    {
        let r = self.with_context(context);
        match r {
            Ok(t) => Ok(t),
            Err(ctx) => Err(E2::from(ctx)),
        }
    }
}

impl<T, E> ResultExt<T, E> for Result<T, E> {
    open spec fn as_result(&self) -> Result<T, E> {
        *self
    }

    fn context<C>(self, context: C) -> (r: Result<T, Context<E, C>>) {
        match self {
            Ok(t) => Ok(t),
            Err(error) => Err(Context { error, context }),
        }
    }

    fn with_context<F, C>(self, context: F) -> (r: Result<T, Context<E, C>>) where
        F: FnOnce() -> C,
    {
        match self {
            Ok(t) => Ok(t),
            Err(error) => {
                let context = context();
                Err(Context { error, context })
            },
        }
    }
}

} // verus!
