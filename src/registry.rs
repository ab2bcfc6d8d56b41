//! The closed set of event types that the extractor recognizes.

use vstd::prelude::*;

verus! {

/// Canonical tag of the pool-creation event of the AMM module.
pub const NEW_POOL_TAG: &'static str =
    "0x02a9d1afd0f2053e1eb569fde03b8407ff9d9eb0e6d76d88c19ec3d5424eafa9::events::NewPool";

/// Every recognized event type, each bound to exactly one canonical tag.
#[derive(Debug, Clone, Copy, PartialEq, Eq, Structural)]
pub enum Events {
    NewPoolEvent,
}

impl Events {
    /// The canonical tag of this event type.
    pub open spec fn spec_tag(self) -> Seq<char> {
        match self {
            Events::NewPoolEvent => NEW_POOL_TAG@,
        }
    }

    /// Every variant, in declaration order.
    pub open spec fn spec_all() -> Seq<Events> {
        seq![Events::NewPoolEvent]
    }

    pub fn as_str(&self) -> (r: &'static str)
        ensures
            r@ == self.spec_tag(),
    {
        match self {
            Events::NewPoolEvent => NEW_POOL_TAG,
        }
    }

    /// Every variant, in declaration order.
    pub fn all() -> (r: Vec<Events>)
        ensures
            r@ == Self::spec_all(),
            forall|e: Events| Self::spec_all().contains(e),
    {
        let r = vec![Events::NewPoolEvent];
        proof {
            assert(r@ =~= Self::spec_all());
            assert forall|e: Events| Self::spec_all().contains(e) by {
                match e {
                    Events::NewPoolEvent => assert(Self::spec_all()[0] == e),
                }
            }
        }
        r
    }
}

/// Whether `tag` is the canonical tag of some recognized event type.
pub open spec fn is_recognized_tag(tag: Seq<char>) -> bool {
    exists|e: Events| #[trigger] e.spec_tag() == tag
}

/// The canonical tags of all recognized event types.
pub open spec fn spec_recognized_tags() -> Set<Seq<char>> {
    Set::new(|t: Seq<char>| is_recognized_tag(t))
}

/// The canonical tags of all recognized event types, in declaration order.
pub fn recognized_tags() -> (r: Vec<String>)
    ensures
        r@.len() == Events::spec_all().len(),
        forall|i: int| 0 <= i < r@.len() ==> #[trigger] r@[i]@ == Events::spec_all()[i].spec_tag(),
        forall|t: Seq<char>| spec_recognized_tags().contains(t) <==> exists|i: int|
            0 <= i < r@.len() && #[trigger] r@[i]@ == t,
{
    let all = Events::all();
    let mut r: Vec<String> = Vec::new();
    let mut i: usize = 0;
    while i < all.len()
        invariant
            all@ == Events::spec_all(),
            i <= all.len(),
            r@.len() == i,
            forall|j: int| 0 <= j < i ==> #[trigger] r@[j]@ == Events::spec_all()[j].spec_tag(),
        decreases all.len() - i,
    {
        r.push(all[i].as_str().to_owned());
        i = i + 1;
    }
    proof {
        assert forall|t: Seq<char>| spec_recognized_tags().contains(t) <==> exists|i: int|
            0 <= i < r@.len() && #[trigger] r@[i]@ == t by {
            if spec_recognized_tags().contains(t) {
                let e = choose|e: Events| #[trigger] e.spec_tag() == t;
                match e {
                    Events::NewPoolEvent => assert(r@[0]@ == t),
                }
            }
            if exists|i: int| 0 <= i < r@.len() && #[trigger] r@[i]@ == t {
                assert(Events::spec_all()[0].spec_tag() == t);
            }
        }
    }
    r
}

/// Exact membership test of `tag` in the set of recognized tags.
pub fn is_recognized(tag: &str) -> (r: bool)
    ensures
        r == is_recognized_tag(tag@),
        r == spec_recognized_tags().contains(tag@),
{
    let wanted = tag.to_owned();
    let all = Events::all();
    let mut i: usize = 0;
    while i < all.len()
        invariant
            all@ == Events::spec_all(),
            wanted@ == tag@,
            i <= all.len(),
            forall|j: int| 0 <= j < i ==> #[trigger] Events::spec_all()[j].spec_tag() != tag@,
        decreases all.len() - i,
    {
        let candidate = all[i].as_str().to_owned();
        if candidate == wanted {
            proof {
                assert(all[i as int].spec_tag() == tag@);
            }
            return true;
        }
        i = i + 1;
    }
    proof {
        assert forall|e: Events| #[trigger] e.spec_tag() != tag@ by {
            match e {
                Events::NewPoolEvent => assert(Events::spec_all()[0] == e),
            }
        }
    }
    false
}

} // verus!
