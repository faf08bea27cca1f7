use vstd::prelude::*;

verus! {

/// Rolls are drawn from `0..ROLL_SCALE`; a probability is given in the same
/// scale, so a roll below `p` happens with probability `p / ROLL_SCALE`.
pub const ROLL_SCALE: u64 = 1000;

/// One xorshift step.
pub open spec fn xorshift(x: u64) -> u64 {
    let a = x ^ (x << 13u64);
    let b = a ^ (a >> 7u64);
    b ^ (b << 17u64)
}

/// The `n` rolls drawn from a source in state `state`.
pub open spec fn roll_seq(state: u64, n: nat) -> Seq<u64>
    decreases n,
{
    if n == 0 {
        Seq::empty()
    } else {
        seq![xorshift(state) % ROLL_SCALE].add(roll_seq(xorshift(state), (n - 1) as nat))
    }
}

pub proof fn lemma_roll_seq_len(state: u64, n: nat)
    ensures
        roll_seq(state, n).len() == n,
    decreases n,
{
    if n > 0 {
        lemma_roll_seq_len(xorshift(state), (n - 1) as nat);
    }
}

/// The state of a source in state `state` after `n` rolls.
pub open spec fn advanced(state: u64, n: nat) -> u64
    decreases n,
{
    if n == 0 {
        state
    } else {
        advanced(xorshift(state), (n - 1) as nat)
    }
}

/// A deterministic pseudo-random source; its seed is an input like any other.
#[derive(Clone, Copy, Debug, PartialEq, Eq, Structural)]
pub struct RandomSource {
    pub state: u64,
}

impl RandomSource {
    /// A seed of zero would stay zero forever, so it is replaced by one.
    pub fn new(seed: u64) -> (r: RandomSource)
        ensures
            r.state == if seed == 0 {
                1
            } else {
                seed
            },
    {
        RandomSource { state: if seed == 0 { 1 } else { seed } }
    }

    pub fn roll(&mut self) -> (r: u64)
        ensures
            r == xorshift(old(self).state) % ROLL_SCALE,
            final(self).state == xorshift(old(self).state),
            r < ROLL_SCALE,
    {
        let x = self.state;
        let a = x ^ (x << 13u64);
        let b = a ^ (a >> 7u64);
        let c = b ^ (b << 17u64);
        self.state = c;
        c % ROLL_SCALE
    }

    pub fn rolls(&mut self, n: usize) -> (r: Vec<u64>)
        ensures
            r@ == roll_seq(old(self).state, n as nat),
            r@.len() == n,
            final(self).state == advanced(old(self).state, n as nat),
    {
        let ghost s0 = self.state;
        let mut out: Vec<u64> = Vec::new();
        let mut i: usize = 0;
        while i < n
            invariant
                i <= n,
                out@.add(roll_seq(self.state, (n - i) as nat)) == roll_seq(s0, n as nat),
                advanced(self.state, (n - i) as nat) == advanced(s0, n as nat),
            decreases n - i,
        {
            let ghost before = self.state;
            let x = self.roll();
            proof {
                let rest = roll_seq(self.state, (n - i - 1) as nat);
                assert(roll_seq(before, (n - i) as nat) == seq![x].add(rest));
                assert(out@.add(seq![x].add(rest)) =~= out@.push(x).add(rest));
            }
            out.push(x);
            i = i + 1;
        }
        assert(out@.add(roll_seq(self.state, 0)) =~= out@);
        proof {
            lemma_roll_seq_len(s0, n as nat);
        }
        out
    }
}

} // verus!
