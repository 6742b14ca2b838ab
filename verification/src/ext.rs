//! Small extensions on `Option` and on string types that the option and
//! URI handling reads naturally with.

use vstd::prelude::*;

verus! {

/// Turning presence into an error: a present value is rejected with a given
/// error, an absent one passes.
pub trait OptionExt {
    /// Whether a value is present.
    spec fn spec_is_some(&self) -> bool;

    /// Fails with `e` when a value is present; passes when none is.
    fn none_or<E>(self, e: E) -> (r: Result<(), E>) where Self: Sized
        ensures
            self.spec_is_some() ==> r == Err::<(), E>(e),
            !self.spec_is_some() ==> r == Ok::<(), E>(()),
    ;
}

impl<T> OptionExt for Option<T> {
    open spec fn spec_is_some(&self) -> bool {
        self is Some
    }

    fn none_or<E>(self, e: E) -> (r: Result<(), E>) {
        match self {
            Some(_) => Err(e),
            None => Ok(()),
        }
    }
}

/// Validation and emptiness tests on string-shaped values.
pub trait StrExt {
    /// The text of the value.
    spec fn text(&self) -> Seq<char>;

    /// Hands the value back when the validation accepts it, or the given
    /// error when it does not.
    fn matches_or<F: FnOnce(&Self) -> bool, E>(self, validation_fn: F, e: E) -> (r: Result<
        Self,
        E,
    >) where Self: Sized
        requires
            validation_fn.requires((&self,)),
        ensures
            r matches Ok(v) ==> v == self && validation_fn.ensures((&self,), true),
            r matches Err(err) ==> err == e && validation_fn.ensures((&self,), false),
    ;

    /// Maps empty text to `None` and any other text to `Some` of itself.
    fn map_empty_to_none(self) -> (r: Option<Self>) where Self: Sized
        ensures
            r matches Some(v) ==> v == self && self.text().len() > 0,
            r is None ==> self.text().len() == 0,
    ;
}

impl<'s> StrExt for &'s str {
    open spec fn text(&self) -> Seq<char> {
        (*self)@
    }

    fn matches_or<F: FnOnce(&Self) -> bool, E>(self, validation_fn: F, e: E) -> (r: Result<
        Self,
        E,
    >) {
        if validation_fn(&self) {
            Ok(self)
        } else {
            Err(e)
        }
    }

    fn map_empty_to_none(self) -> (r: Option<Self>) {
        if self.is_empty() {
            None
        } else {
            Some(self)
        }
    }
}

impl StrExt for String {
    open spec fn text(&self) -> Seq<char> {
        self@
    }

    fn matches_or<F: FnOnce(&Self) -> bool, E>(self, validation_fn: F, e: E) -> (r: Result<
        Self,
        E,
    >) {
        if validation_fn(&self) {
            Ok(self)
        } else {
            Err(e)
        }
    }

    fn map_empty_to_none(self) -> (r: Option<Self>) {
        if self.as_str().is_empty() {
            None
        } else {
            Some(self)
        }
    }
}

} // verus!
