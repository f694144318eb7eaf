//! The cost model: how many capacity units a request of a given size reserves.

use vstd::prelude::*;
use crate::error::ConfigError;
use vstd::arithmetic::div_mod::{lemma_div_is_ordered, lemma_fundamental_div_mod, lemma_mod_bound};
use vstd::arithmetic::mul::lemma_mul_inequality;

verus! {

/// Tokens held by one capacity unit unless configured otherwise.
pub const DEFAULT_BLOCK_SIZE: usize = 16;

/// Capacity of a pool unless configured otherwise.
pub const DEFAULT_MAX_UNITS: u32 = 16384;

/// An amount of pool capacity.
#[derive(Clone, Copy, Debug, PartialEq, Eq, Structural)]
pub struct ResourceCost {
    pub units: u32,
}

impl ResourceCost {
    pub fn new(units: u32) -> (cost: Self)
        ensures
            cost.units == units,
    {
        ResourceCost { units }
    }

    /// A cost stated directly as megabytes of accelerator memory.
    pub fn gpu_vram(megabytes: u32) -> (cost: Self)
        ensures
            cost.units == megabytes,
    {
        ResourceCost { units: megabytes }
    }
}

/// `n / d` rounded up.
pub open spec fn ceil_div(n: nat, d: nat) -> nat
    recommends
        d > 0,
{
    if n % d == 0 {
        n / d
    } else {
        n / d + 1
    }
}

/// Converts between token counts and capacity units.
#[derive(Clone, Copy, Debug)]
pub struct ResourceAdapter {
    block_size: usize,
    max_units: u32,
    unit_bytes: usize,
}

impl ResourceAdapter {
    pub closed spec fn spec_block_size(&self) -> usize {
        self.block_size
    }

    pub closed spec fn spec_max_units(&self) -> u32 {
        self.max_units
    }

    pub closed spec fn spec_unit_bytes(&self) -> usize {
        self.unit_bytes
    }

    /// A unit holds at least one token.
    pub open spec fn wf(&self) -> bool {
        self.spec_block_size() > 0
    }

    /// The units that `prompt_tokens + generation_tokens` tokens occupy.
    pub open spec fn cost_units(&self, prompt_tokens: usize, generation_tokens: usize) -> nat {
        ceil_div((prompt_tokens + generation_tokens) as nat, self.spec_block_size() as nat)
    }

    pub open spec fn blocks_for(&self, tokens: usize) -> nat {
        ceil_div(tokens as nat, self.spec_block_size() as nat)
    }

    pub open spec fn tokens_in(&self, blocks: usize) -> nat {
        (blocks * self.spec_block_size()) as nat
    }

    /// `unit_bytes` is the size of one unit in bytes, 0 where it is not known.
    pub fn new(block_size: usize, max_units: u32, unit_bytes: usize) -> (adapter: Self)
        requires
            block_size > 0,
        ensures
            adapter.wf(),
            adapter.spec_block_size() == block_size,
            adapter.spec_max_units() == max_units,
            adapter.spec_unit_bytes() == unit_bytes,
    {
        ResourceAdapter { block_size, max_units, unit_bytes }
    }

    /// As `new`, for a block size that has not been checked.
    pub fn try_new(block_size: usize, max_units: u32, unit_bytes: usize) -> (made: Result<
        Self,
        ConfigError,
    >)
        ensures
            block_size == 0 <==> made is Err,
            made matches Err(e) ==> e == ConfigError::ZeroBlockSize,
            made matches Ok(adapter) ==> {
                &&& adapter.wf()
                &&& adapter.spec_block_size() == block_size
                &&& adapter.spec_max_units() == max_units
                &&& adapter.spec_unit_bytes() == unit_bytes
            },
    {
        if block_size == 0 {
            Err(ConfigError::ZeroBlockSize)
        } else {
            Ok(ResourceAdapter { block_size, max_units, unit_bytes })
        }
    }

    #[verifier::when_used_as_spec(spec_block_size)]
    pub fn block_size(&self) -> (size: usize)
        ensures
            size == self.spec_block_size(),
    {
        self.block_size
    }

    #[verifier::when_used_as_spec(spec_max_units)]
    pub fn max_units(&self) -> (units: u32)
        ensures
            units == self.spec_max_units(),
    {
        self.max_units
    }

    /// The size of one unit in bytes, where it is known.
    pub fn unit_bytes(&self) -> (bytes: Option<usize>)
        ensures
            bytes == if self.spec_unit_bytes() == 0 {
                None
            } else {
                Some(self.spec_unit_bytes())
            },
    {
        if self.unit_bytes == 0 {
            None
        } else {
            Some(self.unit_bytes)
        }
    }

    /// The cost of a request, where it can be counted in a `u32`.
    pub fn checked_cost(&self, prompt_tokens: usize, generation_tokens: usize) -> (cost: Option<
        ResourceCost,
    >)
        requires
            self.wf(),
        ensures
            cost is Some <==> self.cost_units(prompt_tokens, generation_tokens) <= u32::MAX,
            cost matches Some(c) ==> c.units == self.cost_units(prompt_tokens, generation_tokens),
    {
        let total: u128 = prompt_tokens as u128 + generation_tokens as u128;
        let size: u128 = self.block_size as u128;
        let whole: u128 = total / size;
        let units: u128 = if total % size == 0 {
            whole
        } else {
            whole + 1
        };
        if units <= u32::MAX as u128 {
            Some(ResourceCost { units: units as u32 })
        } else {
            None
        }
    }

    /// The cost of a request: its tokens in units, rounded up.
    pub fn calculate_cost(&self, prompt_tokens: usize, generation_tokens: usize) -> (cost:
        ResourceCost)
        requires
            self.wf(),
            self.cost_units(prompt_tokens, generation_tokens) <= u32::MAX,
        ensures
            cost.units == self.cost_units(prompt_tokens, generation_tokens),
    {
        let total: u128 = prompt_tokens as u128 + generation_tokens as u128;
        let size: u128 = self.block_size as u128;
        let whole: u128 = total / size;
        let units: u128 = if total % size == 0 {
            whole
        } else {
            whole + 1
        };
        ResourceCost { units: units as u32 }
    }

    pub fn tokens_to_blocks(&self, tokens: usize) -> (blocks: usize)
        requires
            self.wf(),
        ensures
            blocks == self.blocks_for(tokens),
    {
        let whole: usize = tokens / self.block_size;
        if tokens % self.block_size == 0 {
            whole
        } else {
            proof {
                lemma_fundamental_div_mod(tokens as int, self.block_size as int);
                lemma_mul_inequality(1, self.block_size as int, whole as int);
            }
            whole + 1
        }
    }

    pub fn blocks_to_tokens(&self, blocks: usize) -> (tokens: usize)
        requires
            self.tokens_in(blocks) <= usize::MAX,
        ensures
            tokens == self.tokens_in(blocks),
    {
        blocks * self.block_size
    }
}

impl Default for ResourceAdapter {
    fn default() -> (adapter: Self)
        ensures
            adapter.wf(),
            adapter.spec_block_size() == DEFAULT_BLOCK_SIZE,
            adapter.spec_max_units() == DEFAULT_MAX_UNITS,
            adapter.spec_unit_bytes() == 0,
    {
        ResourceAdapter { block_size: DEFAULT_BLOCK_SIZE, max_units: DEFAULT_MAX_UNITS, unit_bytes: 0 }
    }
}

/// Rounding up never under-counts, and never by a whole unit: `ceil_div(n, d)`
/// units hold `n` tokens, and one unit fewer would not.
pub proof fn lemma_ceil_div_is_least_cover(n: nat, d: nat)
    requires
        d > 0,
    ensures
        ceil_div(n, d) * d >= n,
        n > 0 ==> (ceil_div(n, d) - 1) * d < n,
        n == 0 ==> ceil_div(n, d) == 0,
{
    lemma_fundamental_div_mod(n as int, d as int);
    lemma_mod_bound(n as int, d as int);
    let q = (n / d) as int;
    assert((q + 1) * d == q * d + d) by (nonlinear_arith);
    assert((q - 1) * d == q * d - d) by (nonlinear_arith);
    assert(d * q == q * d) by (nonlinear_arith);
    if n == 0 {
        assert(q * d == 0);
        assert(q == 0) by (nonlinear_arith)
            requires
                q * d == 0,
                d > 0,
        ;
    }
}

/// A request with more tokens never costs less.
pub proof fn lemma_ceil_div_monotonic(n1: nat, n2: nat, d: nat)
    requires
        d > 0,
        n1 <= n2,
    ensures
        ceil_div(n1, d) <= ceil_div(n2, d),
{
    lemma_div_is_ordered(n1 as int, n2 as int, d as int);
    if n1 / d == n2 / d {
        lemma_fundamental_div_mod(n1 as int, d as int);
        lemma_fundamental_div_mod(n2 as int, d as int);
    }
}

/// The cost of a request grows with its prompt and with its generation budget.
pub proof fn lemma_cost_monotonic(
    adapter: ResourceAdapter,
    prompt_a: usize,
    generation_a: usize,
    prompt_b: usize,
    generation_b: usize,
)
    requires
        adapter.wf(),
        prompt_a <= prompt_b,
        generation_a <= generation_b,
    ensures
        adapter.cost_units(prompt_a, generation_a) <= adapter.cost_units(prompt_b, generation_b),
{
    lemma_ceil_div_monotonic(
        (prompt_a + generation_a) as nat,
        (prompt_b + generation_b) as nat,
        adapter.spec_block_size() as nat,
    );
}

/// The blocks that hold `tokens` tokens hold at least that many.
pub proof fn lemma_blocks_cover_tokens(adapter: ResourceAdapter, tokens: usize)
    requires
        adapter.wf(),
    ensures
        adapter.blocks_for(tokens) * adapter.spec_block_size() >= tokens,
        adapter.blocks_for(tokens) <= usize::MAX ==> adapter.tokens_in(
            adapter.blocks_for(tokens) as usize,
        ) >= tokens,
{
    lemma_ceil_div_is_least_cover(tokens as nat, adapter.spec_block_size() as nat);
}

} // verus!
