//! A value shown under a mask, such as a username shown as the user's full name.

use vstd::prelude::*;
use crate::text::clone_opt;

verus! {

/// A value typed by the user, and what to show in its place.
#[derive(Debug)]
pub struct MaskedString {
    pub value: String,
    pub mask: Option<String>,
}

pub struct MaskedStringView {
    pub value: Seq<char>,
    pub mask: Option<Seq<char>>,
}

impl View for MaskedString {
    type V = MaskedStringView;

    open spec fn view(&self) -> MaskedStringView {
        MaskedStringView { value: self.value@, mask: self.mask.deep_view() }
    }
}

/// What is shown: the mask where there is one, else the value.
pub open spec fn shown(m: MaskedStringView) -> Seq<char> {
    match m.mask {
        Some(mask) => mask,
        None => m.value,
    }
}

/// Empties a string's storage (zeroize's `Zeroize` for `String`, which zeroes the
/// bytes and truncates); claims only that the string is empty afterwards.
#[verifier::external_body]
pub(crate) fn zeroize_string(s: &mut String)
    ensures
        final(s)@ == Seq::<char>::empty(),
{
    zeroize::Zeroize::zeroize(s);
}

/// Empties an optional string (zeroize's `Zeroize` for `Option`, which zeroizes the
/// value and takes it); claims only that it is `None` afterwards.
#[verifier::external_body]
pub(crate) fn zeroize_opt_string(s: &mut Option<String>)
    ensures
        *final(s) is None,
{
    zeroize::Zeroize::zeroize(s);
}

impl MaskedString {
    /// Nothing, unmasked.
    pub fn default() -> (r: MaskedString)
        ensures
            r@ == (MaskedStringView { value: Seq::empty(), mask: None }),
    {
        MaskedString { value: String::new(), mask: None }
    }

    /// `value`, shown as `mask` where one is given.
    pub fn from(value: String, mask: Option<String>) -> (r: MaskedString)
        ensures
            r@ == (MaskedStringView { value: value@, mask: mask.deep_view() }),
    {
        MaskedString { value, mask }
    }

    /// What is shown.
    pub fn get(&self) -> (r: &str)
        ensures
            r@ == shown(self@),
    {
        match &self.mask {
            Some(mask) => mask.as_str(),
            None => self.value.as_str(),
        }
    }

    /// Wipes value and mask.
    pub fn zeroize(&mut self)
        ensures
            final(self)@ == (MaskedStringView { value: Seq::empty(), mask: None }),
    {
        zeroize_string(&mut self.value);
        zeroize_opt_string(&mut self.mask);
    }

    /// A copy.
    pub fn duplicate(&self) -> (r: MaskedString)
        ensures
            r@ == self@,
    {
        MaskedString { value: self.value.clone(), mask: clone_opt(&self.mask) }
    }
}

} // verus!
