//! A context-local variable: the value that one execution context holds for
//! it, a default, and tokens that restore an earlier value.
//!
//! A value of `ContextVar` is the variable as one execution context sees it.
//! A new context starts from `fork`, a copy of its creator's view; from then
//! on a change in either is invisible to the other.
use vstd::prelude::*;

verus! {

/// The value behind an optional reference.
pub open spec fn deref_opt<V>(o: Option<&V>) -> Option<V> {
    match o {
        Some(x) => Some(*x),
        None => None,
    }
}

/// A context-local variable as seen from one execution context.
pub struct ContextVar<V> {
    value: Option<V>,
    default: Option<V>,
}

/// What `ContextVar::set` replaced: handing it to `ContextVar::reset`
/// restores that value, or the unset state.
pub struct ContextToken<V> {
    old_value: Option<V>,
}

impl<V> ContextVar<V> {
    /// The value set in this context, if any.
    pub closed spec fn value(&self) -> Option<V> {
        self.value
    }

    /// The value that the variable was created with, if any.
    pub closed spec fn default_value(&self) -> Option<V> {
        self.default
    }

    /// What a lookup gives: the value set in this context, else `fallback`,
    /// else the default.
    pub open spec fn lookup(&self, fallback: Option<V>) -> Option<V> {
        if self.value() is Some {
            self.value()
        } else if fallback is Some {
            fallback
        } else {
            self.default_value()
        }
    }

    /// The current value: the one set in this context, else the default.
    pub open spec fn current(&self) -> Option<V> {
        self.lookup(None)
    }

    /// A variable with no default, unset.
    pub fn new() -> (r: Self)
        ensures
            r.value() is None,
            r.default_value() is None,
    {
        ContextVar { value: None, default: None }
    }

    /// A variable with the default `default`, unset.
    pub fn new_with_default(default: V) -> (r: Self)
        ensures
            r.value() is None,
            r.default_value() == Some(default),
    {
        ContextVar { value: None, default: Some(default) }
    }

    /// The value set in this context, else `fallback`, else the default, else
    /// `None`.
    pub fn get<'a>(&'a self, fallback: Option<&'a V>) -> (r: Option<&'a V>)
        ensures
            deref_opt(r) == self.lookup(deref_opt(fallback)),
    {
        match &self.value {
            Some(v) => Some(v),
            None => match fallback {
                Some(f) => Some(f),
                None => match &self.default {
                    Some(d) => Some(d),
                    None => None,
                },
            },
        }
    }

    /// Sets the value in this context; the token holds the value it replaced.
    pub fn set(&mut self, value: V) -> (token: ContextToken<V>)
        ensures
            final(self).value() == Some(value),
            final(self).default_value() == old(self).default_value(),
            token.old_value() == old(self).value(),
    {
        let old_value = self.value.take();
        self.value = Some(value);
        ContextToken { old_value }
    }

    /// Restores the value that `token` holds, or the unset state.
    pub fn reset(&mut self, token: ContextToken<V>)
        ensures
            final(self).value() == token.old_value(),
            final(self).default_value() == old(self).default_value(),
    {
        self.value = token.old_value;
    }
}

impl<V: Clone> ContextVar<V> {
    /// The view of a new execution context created from this one: a copy
    /// of this context's value and of the default.
    pub fn fork(&self) -> (r: Self)
        ensures
            r.value() is Some == self.value() is Some,
            r.default_value() is Some == self.default_value() is Some,
            self.value() is Some ==> cloned(self.value()->0, r.value()->0),
            self.default_value() is Some ==> cloned(
                self.default_value()->0,
                r.default_value()->0,
            ),
    {
        let value = match &self.value {
            Some(v) => Some(v.clone()),
            None => None,
        };
        let default = match &self.default {
            Some(d) => Some(d.clone()),
            None => None,
        };
        ContextVar { value, default }
    }
}

impl<V> ContextToken<V> {
    /// The value that the `set` which made this token replaced; `None` if
    /// the variable was unset.
    pub closed spec fn old_value(&self) -> Option<V> {
        self.old_value
    }

    /// The replaced value, `None` if the variable was unset.
    pub fn get_old_value(&self) -> (r: Option<&V>)
        ensures
            deref_opt(r) == self.old_value(),
    {
        match &self.old_value {
            Some(v) => Some(v),
            None => None,
        }
    }
}

} // verus!
