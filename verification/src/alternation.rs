use vstd::prelude::*;

use crate::char_class::{CharClass, ClassItem};
use crate::rule::Rulex;

verus! {

/// An alternation: a union of two or more alternatives, e.g. `'a' | 'b'`.
#[derive(Debug)]
pub struct Alternation {
    pub rules: Vec<Rulex>,
}

/// True when every rule in the sequence is a non-negated character class.
pub open spec fn all_plain_char_classes(rules: Seq<Rulex>) -> bool {
    forall|i: int|
        0 <= i < rules.len() ==> (#[trigger] rules[i]) is CharClass
            && !rules[i]->CharClass_0.negated
}

/// The items of all the character classes in the sequence, in order.
pub open spec fn union_items(rules: Seq<Rulex>) -> Seq<ClassItem>
    decreases rules.len(),
{
    if rules.len() == 0 {
        Seq::empty()
    } else {
        union_items(rules.drop_last()) + rules.last()->CharClass_0.items@
    }
}

impl Alternation {
    /// Builds the rule for an alternation of the given alternatives.
    ///
    /// An alternation in which every alternative is a non-negated
    /// character class collapses into a single character class holding
    /// the union of their items; any other alternation is kept as is.
    pub fn new_rulex(rules: Vec<Rulex>) -> (r: Rulex)
        ensures
            all_plain_char_classes(rules@) ==> r is CharClass && r->CharClass_0.negated == false
                && r->CharClass_0.items@ == union_items(rules@),
            !all_plain_char_classes(rules@) ==> r == Rulex::Alternation(Alternation { rules }),
    {
        let mut all_plain = true;
        let mut i: usize = 0;
        while i < rules.len()
            invariant
                0 <= i <= rules@.len(),
                all_plain == all_plain_char_classes(rules@.take(i as int)),
            decreases rules@.len() - i,
        {
            match &rules[i] {
                Rulex::CharClass(c) => {
                    if c.is_negated() {
                        all_plain = false;
                    }
                },
                _ => {
                    all_plain = false;
                },
            }
            proof {
                assert(rules@.take(i + 1 as int).drop_last() =~= rules@.take(i as int));
                if all_plain_char_classes(rules@.take(i + 1 as int)) {
                    assert(rules@.take(i + 1 as int)[i as int] == rules@[i as int]);
                }
            }
            i = i + 1;
        }
        proof {
            assert(rules@.take(rules@.len() as int) =~= rules@);
        }
        if all_plain {
            let mut cc = CharClass::default();
            let mut rest = rules;
            proof {
                assert(rest@.skip(0) =~= rest@);
            }
            let ghost orig = rest@;
            while rest.len() > 0
                invariant
                    all_plain_char_classes(orig),
                    cc.negated == false,
                    orig =~= orig.take(orig.len() - rest@.len()) + rest@,
                    cc.items@ == union_items(orig.take(orig.len() - rest@.len())),
                decreases rest@.len(),
            {
                let ghost k = orig.len() - rest@.len();
                let rule = rest.remove(0);
                proof {
                    assert(orig[k as int] == rule);
                    assert(orig.take(k + 1).drop_last() =~= orig.take(k));
                    assert(orig.take(k + 1).last() == rule);
                    assert(orig =~= orig.take(k + 1) + rest@);
                }
                match rule {
                    Rulex::CharClass(c) => {
                        cc.add_all(c);
                    },
                    _ => {
                        proof {
                            assert(false);
                        }
                    },
                }
            }
            proof {
                assert(orig.take(orig.len() as int) =~= orig);
            }
            Rulex::CharClass(cc)
        } else {
            Rulex::Alternation(Alternation { rules })
        }
    }
}

} // verus!
