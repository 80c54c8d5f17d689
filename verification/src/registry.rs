//! The shortcode registry: the functions that compute fragments, by display
//! name.
//!
//! A registry is built once, by a chain of `register` calls, and only read
//! afterwards.

use vstd::prelude::*;
use crate::arguments::Arguments;
use crate::table::Table;

verus! {

/// Whether `shortcode_fn` can be called with every argument set.
pub open spec fn accepts_all<F: Fn(&Arguments) -> String>(shortcode_fn: F) -> bool {
    forall|args: &Arguments| args.wf() ==> #[trigger] call_requires(shortcode_fn, (args,))
}

/// The registered shortcode functions, by display name.
///
/// All functions of a registry have one type `F`: a function pointer
/// `fn(&Arguments) -> String`, or a boxed closure where functions carry
/// state of their own.
pub struct Shortcodes<F> {
    functions: Table<F>,
}

impl<F: Fn(&Arguments) -> String> View for Shortcodes<F> {
    type V = Map<Seq<char>, F>;

    /// The function registered under each display name.
    closed spec fn view(&self) -> Map<Seq<char>, F> {
        self.functions@
    }
}

impl<F: Fn(&Arguments) -> String> Shortcodes<F> {
    /// The invariant of the type: a display name has one function, and every
    /// function can be called with every argument set.
    pub closed spec fn wf(&self) -> bool {
        &&& self.functions.wf()
        &&& forall|display: Seq<char>| #[trigger]
            self.functions@.contains_key(display) ==> accepts_all(self.functions@[display])
    }

    /// What holds of every registered function.
    pub proof fn lemma_wf_accepts(&self, display: Seq<char>)
        requires
            self.wf(),
            self@.contains_key(display),
        ensures
            accepts_all(self@[display]),
    {
    }

    /// Creates a registry without functions.
    pub fn new() -> (registry: Self)
        ensures
            registry.wf(),
            registry@ == Map::<Seq<char>, F>::empty(),
    {
        Shortcodes { functions: Table::new() }
    }

    /// Registers `shortcode_fn` under the display name `display`. A function
    /// registered under that name before is replaced.
    pub fn register(self, display: &str, shortcode_fn: F) -> (registry: Self)
        requires
            self.wf(),
            accepts_all(shortcode_fn),
        ensures
            registry.wf(),
            registry@ == self@.insert(display@, shortcode_fn),
    {
        let mut functions = self.functions;
        functions.insert(display.to_owned(), shortcode_fn);
        Shortcodes { functions }
    }

    /// The number of registered display names.
    pub fn len(&self) -> (n: usize)
        requires
            self.wf(),
        ensures
            self@.dom().finite(),
            n == self@.dom().len(),
    {
        self.functions.len()
    }

    /// Whether a function is registered under `display`.
    pub fn contains(&self, display: &str) -> (registered: bool)
        ensures
            registered == self@.contains_key(display@),
    {
        self.functions.contains(display)
    }

    /// Calls the function registered under `display` with `args` and returns
    /// the fragment it computes, or `None` where no function is registered
    /// under that name.
    pub fn compute(&self, display: &str, args: &Arguments) -> (fragment: Option<String>)
        requires
            self.wf(),
            args.wf(),
        ensures
            match fragment {
                Some(text) => self@.contains_key(display@) && call_ensures(
                    self@[display@],
                    (args,),
                    text,
                ),
                None => !self@.contains_key(display@),
            },
    {
        match self.functions.get(display) {
            Some(shortcode_fn) => {
                proof {
                    self.lemma_wf_accepts(display@);
                }
                Some(shortcode_fn(args))
            },
            None => None,
        }
    }
}

} // verus!
