//! Compiled queries.
use vstd::prelude::*;
use crate::tree::opt_view;

verus! {

/// Repetition marker on a child position of a pattern.
#[derive(Clone, Copy, Debug, PartialEq, Eq, Structural)]
pub enum Quantifier {
    /// Exactly one child.
    One,
    /// `*`: any number of children, none included.
    ZeroOrMore,
    /// `+`: at least one child.
    OneOrMore,
    /// `?`: one child or none.
    ZeroOrOne,
}

impl Quantifier {
    /// The least number of children the position must take.
    pub open spec fn min(self) -> nat {
        match self {
            Quantifier::One | Quantifier::OneOrMore => 1,
            Quantifier::ZeroOrMore | Quantifier::ZeroOrOne => 0,
        }
    }

    /// Whether a position that has taken `count` children may take one more.
    pub open spec fn admits_more(self, count: nat) -> bool {
        match self {
            Quantifier::One | Quantifier::ZeroOrOne => count < 1,
            Quantifier::ZeroOrMore | Quantifier::OneOrMore => true,
        }
    }

    /// Whether `count` children are enough for the position.
    pub fn is_satisfied_by(self, count: usize) -> (r: bool)
        ensures
            r == (count >= self.min()),
    {
        match self {
            Quantifier::One | Quantifier::OneOrMore => count >= 1,
            Quantifier::ZeroOrMore | Quantifier::ZeroOrOne => true,
        }
    }

    /// Whether the position may take one more child after `count`.
    pub fn may_take_more(self, count: usize) -> (r: bool)
        ensures
            r == self.admits_more(count as nat),
    {
        match self {
            Quantifier::One | Quantifier::ZeroOrOne => count < 1,
            Quantifier::ZeroOrMore | Quantifier::OneOrMore => true,
        }
    }
}

/// A node pattern: what one node must look like, what to call it, and what
/// its children must look like.
///
/// `kind` is `None` for the wildcard `_`. `field` and `quantifier` say how the
/// pattern stands among its siblings in the parent pattern; the root of a
/// query has no field and the quantifier [`Quantifier::One`].
#[derive(Debug, PartialEq, Eq)]
pub struct Pattern {
    pub kind: Option<String>,
    pub capture: Option<String>,
    pub field: Option<String>,
    pub quantifier: Quantifier,
    pub children: Vec<Pattern>,
}

/// The mathematical value of a [`Pattern`].
pub ghost struct PatternView {
    pub kind: Option<Seq<char>>,
    pub capture: Option<Seq<char>>,
    pub field: Option<Seq<char>>,
    pub quantifier: Quantifier,
    pub children: Seq<PatternView>,
}

impl View for Pattern {
    type V = PatternView;

    open spec fn view(&self) -> PatternView
        decreases self,
    {
        PatternView {
            kind: opt_view(self.kind),
            capture: opt_view(self.capture),
            field: opt_view(self.field),
            quantifier: self.quantifier,
            children: Seq::new(
                self.children.len() as nat,
                |i: int|
                    if 0 <= i < self.children.len() {
                        self.children[i]@
                    } else {
                        arbitrary()
                    },
            ),
        }
    }
}

impl Clone for Pattern {
    /// A copy of the pattern and of everything below it.
    fn clone(&self) -> (copy: Pattern)
        ensures
            copy@ == self@,
        decreases self,
    {
        let mut children: Vec<Pattern> = Vec::new();
        let mut j: usize = 0;
        while j < self.children.len()
            invariant
                j <= self.children.len(),
                children.len() == j,
                forall|k: int| 0 <= k < j ==> (#[trigger] children[k])@ == self.children[k]@,
            decreases self.children.len() - j,
        {
            children.push(self.children[j].clone());
            j = j + 1;
        }
        let copy = Pattern {
            kind: self.kind.clone(),
            capture: self.capture.clone(),
            field: self.field.clone(),
            quantifier: self.quantifier,
            children,
        };
        proof {
            self.view_children();
            assert(copy@.children =~= self@.children);
        }
        copy
    }
}

impl Pattern {
    /// What the view says of the children, one level down.
    pub proof fn view_children(&self)
        ensures
            self@.children.len() == self.children.len(),
            forall|i: int|
                0 <= i < self.children.len()
                    ==> self@.children[i] == (#[trigger] self.children[i])@,
            self@.kind == opt_view(self.kind),
            self@.capture == opt_view(self.capture),
            self@.field == opt_view(self.field),
            self@.quantifier == self.quantifier,
    {
        reveal_with_fuel(<Pattern as View>::view, 2);
    }
}

} // verus!
