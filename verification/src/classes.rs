//! The two artifact interfaces: a dynamically evaluated class set, and a
//! pre-computed one whose full rendering is available unconditionally.

use vstd::prelude::*;

use crate::render::spec_join;

verus! {

/// A pre-computed set of classes whose full space-joined rendering and
/// token list are available unconditionally.
pub trait StaticClasses: Sized {
    /// The invariant that every constructed value of the type satisfies.
    spec fn static_inv(&self) -> bool;

    /// The ordered token views of the whole set.
    spec fn spec_class_set(&self) -> Seq<Seq<char>>;

    /// The full set of classes as a space-separated string.
    fn as_str(&self) -> (r: &str)
        requires
            self.static_inv(),
        ensures
            r@ == spec_join(self.spec_class_set()),
    ;

    /// The full set of classes, one token per element.
    fn class_set(&self) -> (r: &Vec<String>)
        requires
            self.static_inv(),
        ensures
            r.deep_view() == self.spec_class_set(),
    ;
}

/// A computed set of classes: some tokens may be live or dead depending on
/// the boolean record fixed at construction time. All outputs enumerate the
/// live tokens in declaration order.
pub trait Classes: Sized {
    /// The invariant that every constructed value of the type satisfies.
    spec fn inv(&self) -> bool;

    /// The ordered views of the live tokens.
    spec fn live_seq(&self) -> Seq<Seq<char>>;

    /// Whether the non-allocating fast path succeeds: at most one group
    /// emits a fragment, so an already-available string can be returned.
    spec fn fast_path(&self) -> bool;

    /// Render the live classes, separated by single spaces.
    fn render(&self) -> (r: String)
        requires
            self.inv(),
        ensures
            r@ == spec_join(self.live_seq()),
    ;

    /// Attempt to render without allocating: succeeds exactly when at most
    /// one contiguous pre-rendered fragment is active, and whenever it
    /// returns a value, that value equals `render`'s result.
    fn try_as_str(&self) -> (r: Option<&str>)
        requires
            self.inv(),
        ensures
            r is Some <==> self.fast_path(),
            r matches Some(s) ==> s@ == spec_join(self.live_seq()),
    ;

    /// The live tokens, in declaration order.
    fn iter(&self) -> (r: Vec<String>)
        requires
            self.inv(),
        ensures
            r.deep_view() == self.live_seq(),
    ;

    /// The number of live classes.
    fn len(&self) -> (r: usize)
        requires
            self.inv(),
        ensures
            r == self.live_seq().len(),
    ;
}

/// Every pre-computed set is also a computed set whose tokens are all
/// live and whose fast path always succeeds.
impl<T: StaticClasses> Classes for T {
    open spec fn inv(&self) -> bool {
        self.static_inv()
    }

    open spec fn live_seq(&self) -> Seq<Seq<char>> {
        self.spec_class_set()
    }

    open spec fn fast_path(&self) -> bool {
        true
    }

    fn render(&self) -> (r: String) {
        self.as_str().to_owned()
    }

    fn try_as_str(&self) -> (r: Option<&str>) {
        Some(self.as_str())
    }

    fn iter(&self) -> (r: Vec<String>) {
        let cs = self.class_set();
        let mut r: Vec<String> = Vec::new();
        let mut i: usize = 0;
        proof {
            assert(r.deep_view() =~= cs.deep_view().take(0));
        }
        while i < cs.len()
            invariant
                i <= cs.len(),
                r.deep_view() == cs.deep_view().take(i as int),
        decreases cs.len() - i,
        {
            r.push(cs[i].clone());
            proof {
                assert(r.deep_view() =~= cs.deep_view().take(i + 1));
            }
            i += 1;
        }
        proof {
            assert(cs.deep_view().take(cs@.len() as int) =~= cs.deep_view());
        }
        r
    }

    fn len(&self) -> (r: usize) {
        self.class_set().len()
    }
}

/// Erase a computed class set to its interface.
pub fn erase_classes<T: Classes>(classes: T) -> (r: T)
    ensures
        r == classes,
{
    classes
}

/// Erase a pre-computed class set to its interface.
pub fn erase_static_classes<T: StaticClasses>(classes: T) -> (r: T)
    ensures
        r == classes,
{
    classes
}

} // verus!
