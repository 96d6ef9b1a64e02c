use vstd::prelude::*;

verus! {

/// Token counts: what went in to the model and what came out. The same type
/// serves as a budget, a limit on each of the two counts.
#[derive(Debug, Clone, Copy)]
pub struct Usage {
    input_tokens: u64,
    output_tokens: u64,
}

impl Usage {
    /// The number of input tokens.
    pub closed spec fn input(self) -> nat {
        self.input_tokens as nat
    }

    /// The number of output tokens.
    pub closed spec fn output(self) -> nat {
        self.output_tokens as nat
    }

    /// The number of tokens in all.
    pub open spec fn total(self) -> nat {
        self.input() + self.output()
    }

    /// Whether `budget` covers at least one of the two counts of `self`.
    pub open spec fn within_some_limit(self, budget: Usage) -> bool {
        budget.input() >= self.input() || budget.output() >= self.output()
    }

    /// A budget that allows `max_input` tokens in and `max_output` tokens out.
    pub fn as_budget(max_input: u64, max_output: u64) -> (r: Self)
        ensures
            r.input() == max_input,
            r.output() == max_output,
    {
        Usage { input_tokens: max_input, output_tokens: max_output }
    }

    /// The number of input tokens.
    pub fn input_tokens(&self) -> (r: u64)
        ensures
            r == self.input(),
    {
        self.input_tokens
    }

    /// The number of output tokens.
    pub fn output_tokens(&self) -> (r: u64)
        ensures
            r == self.output(),
    {
        self.output_tokens
    }

    /// The number of tokens in all. The sum must fit in a `u64`.
    pub fn tokens(&self) -> (r: u64)
        requires
            self.total() <= u64::MAX,
        ensures
            r == self.total(),
    {
        self.input_tokens + self.output_tokens
    }

    /// True where `budget` allows at least as many input tokens as `self`
    /// used, or at least as many output tokens.
    pub fn exceeds_budget(&self, budget: &Self) -> (r: bool)
        ensures
            r == self.within_some_limit(*budget),
            r == (budget.input() >= self.input() || budget.output() >= self.output()),
    {
        budget.input_tokens >= self.input_tokens || budget.output_tokens >= self.output_tokens
    }
}

/// A budget that allows at least the input tokens used passes the check, and
/// so does one that allows at least the output tokens used; a budget that
/// allows fewer of both fails it. Nothing else, such as the total, counts.
pub proof fn law_exceeds_budget_by_either_count(u: Usage, budget: Usage)
    ensures
        budget.input() >= u.input() ==> u.within_some_limit(budget),
        budget.output() >= u.output() ==> u.within_some_limit(budget),
        budget.input() < u.input() && budget.output() < u.output() ==> !u.within_some_limit(budget),
{
}

} // verus!
