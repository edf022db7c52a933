//! The steps of the first start.

use vstd::prelude::*;

use crate::text;

verus! {

/// A step of the first start, so that users see how many questions remain.
#[derive(Clone, Copy, PartialEq, Eq, Structural, Debug)]
pub struct StartupSetupStep {
    /// The number of the step, starting at one.
    pub index: usize,
    /// How many steps there are.
    pub total: usize,
}

impl StartupSetupStep {
    /// Step `index` of `total`.
    pub fn new(index: usize, total: usize) -> (r: Self)
        requires
            0 < index <= total,
        ensures
            r.index == index,
            r.total == total,
    {
        StartupSetupStep { index, total }
    }

    /// Whether the step is shown: a single step is not.
    pub open spec fn is_shown(self) -> bool {
        self.total > 1
    }

    /// Whether the step is shown.
    pub fn should_render(self) -> (b: bool)
        ensures
            b == self.is_shown(),
    {
        self.total > 1
    }

    /// What is shown of the step.
    pub open spec fn label_v(self) -> Seq<char> {
        "Setup "@ + text::decimal(self.index as nat) + "/"@ + text::decimal(self.total as nat)
    }

    /// What is shown of the step.
    pub fn label(self) -> (r: String)
        ensures
            r@ == self.label_v(),
    {
        let mut r = text::concat3("Setup ", text::decimal_string(self.index as u64).as_str(), "/");
        r.append(text::decimal_string(self.total as u64).as_str());
        r
    }
}

/// The label of a step tells the number of the step and the number of all steps; two
/// steps that differ are labelled differently.
pub proof fn law_label_tells_the_step(step: StartupSetupStep, other: StartupSetupStep)
    ensures
        step.is_shown() <==> step.total >= 2,
        step.label_v() == other.label_v() ==> step == other,
        step.label_v().take(6) == "Setup "@,
        step.label_v().last() == text::decimal(step.total as nat).last(),
{
    reveal_strlit("Setup ");
    reveal_strlit("/");
    text::law_number_is_read_back(step.index as nat);
    text::law_number_is_read_back(step.total as nat);
    text::law_number_is_read_back(other.index as nat);
    text::law_number_is_read_back(other.total as nat);
    let a = text::decimal(step.index as nat);
    let b = text::decimal(other.index as nat);
    let label = step.label_v();
    assert(label.take(6) =~= "Setup "@);
    if label == other.label_v() {
        assert(label[6 + a.len() as int] == '/');
        assert(other.label_v()[6 + b.len() as int] == '/');
        if a.len() < b.len() {
            assert(other.label_v()[6 + a.len() as int] == b[a.len() as int]);
        } else if b.len() < a.len() {
            assert(label[6 + b.len() as int] == a[b.len() as int]);
        }
        assert(label.subrange(6, 6 + a.len() as int) =~= a);
        assert(other.label_v().subrange(6, 6 + b.len() as int) =~= b);
        assert(label.skip(7 + a.len() as int) =~= text::decimal(step.total as nat));
        assert(other.label_v().skip(7 + b.len() as int) =~= text::decimal(other.total as nat));
    }
}

} // verus!
