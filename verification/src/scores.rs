//! Test results: a set of scores and an optional curve applied to all of
//! them.

use vstd::prelude::*;

verus! {

/// Scores on one test, with an optional curve that raises every score.
pub struct TestResult {
    /// The scores, one per student.
    pub scores: Vec<usize>,
    /// The curve to add to every score, if one was granted.
    pub curve: Option<usize>,
}

impl TestResult {
    /// The curve, if one was granted.
    pub fn get_curve(&self) -> (c: &Option<usize>)
        ensures
            *c == self.curve,
    {
        &self.curve
    }

    /// Raises every score by the curve; without a curve the scores stay as
    /// they are.
    pub fn apply_curve(&mut self)
        requires
            match old(self).curve {
                Some(c) => forall|i: int|
                    0 <= i < old(self).scores@.len() ==> old(self).scores@[i] + c <= usize::MAX,
                None => true,
            },
        ensures
            final(self).curve == old(self).curve,
            match old(self).curve {
                Some(c) => final(self).scores@.len() == old(self).scores@.len() && forall|i: int|
                    0 <= i < old(self).scores@.len() ==> final(self).scores@[i] == old(
                    self,
                ).scores@[i] + c,
                None => final(self).scores@ == old(self).scores@,
            },
    {
        match self.curve {
            Some(curve) => {
                let n = self.scores.len();
                let mut raised: Vec<usize> = Vec::new();
                let mut i: usize = 0;
                while i < n
                    invariant
                        n == self.scores@.len(),
                        i <= n,
                        raised@.len() == i,
                        self == old(self),
                        old(self).curve == Some(curve),
                        forall|j: int| 0 <= j < n ==> self.scores@[j] + curve <= usize::MAX,
                        forall|j: int| 0 <= j < i ==> raised@[j] == self.scores@[j] + curve,
                    decreases n - i,
                {
                    raised.push(self.scores[i] + curve);
                    i = i + 1;
                }
                self.scores = raised;
            },
            None => {},
        }
    }
}

} // verus!
