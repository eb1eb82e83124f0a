//! Sampler choice and the per-sample dimension bookkeeping: a sample is a
//! vector of values, and each request for random numbers takes the next
//! unused dimensions of it.
use vstd::prelude::*;

verus! {

/// Which sample generator the settings ask for.
#[derive(Debug, Clone, Copy, PartialEq, Eq, Structural)]
pub enum SamplerMethod {
    Random,
    Sobol,
}

/// The sampler that a settings string names; every other string means random.
pub open spec fn sampler_method_named(s: Seq<char>) -> SamplerMethod {
    if s == "sobol"@ {
        SamplerMethod::Sobol
    } else {
        SamplerMethod::Random
    }
}

impl SamplerMethod {
    /// Reads a sampler name from the settings; unknown names select the
    /// random sampler, so a method is always returned.
    pub fn from_str(s: &str) -> (m: Option<SamplerMethod>)
        ensures
            m == Some(sampler_method_named(s@)),
    {
        proof {
            reveal_strlit("random");
            reveal_strlit("sobol");
            assert("random"@.len() != "sobol"@.len());
        }
        let name = s.to_owned();
        if name == "random".to_owned() {
            Some(SamplerMethod::Random)
        } else if name == "sobol".to_owned() {
            Some(SamplerMethod::Sobol)
        } else {
            Some(SamplerMethod::Random)
        }
    }
}

/// The current sample vector and how many of its dimensions were used.
#[derive(Debug, Clone)]
pub struct SampleCursor<T> {
    current_sample_vec: Vec<T>,
    current_dim: usize,
}

impl<T: Copy> SampleCursor<T> {
    /// The values of the current sample.
    pub closed spec fn values(self) -> Seq<T> {
        self.current_sample_vec@
    }

    /// How many dimensions of the current sample were handed out.
    pub closed spec fn used(self) -> int {
        self.current_dim as int
    }

    pub closed spec fn wf(self) -> bool {
        self.current_dim <= self.current_sample_vec@.len()
    }

    /// A cursor without a sample.
    pub fn new() -> (c: SampleCursor<T>)
        ensures
            c.wf(),
            c.values() == Seq::<T>::empty(),
            c.used() == 0,
    {
        SampleCursor { current_sample_vec: Vec::new(), current_dim: 0 }
    }

    /// Drops the current sample (done at the start of each pixel).
    pub fn reset(&mut self)
        ensures
            final(self).wf(),
            final(self).values() == Seq::<T>::empty(),
            final(self).used() == 0,
    {
        self.current_sample_vec.clear();
        self.current_dim = 0;
    }

    /// Makes `values` the current sample, with no dimension used yet.
    pub fn start_sample(&mut self, values: Vec<T>)
        ensures
            final(self).wf(),
            final(self).values() == values@,
            final(self).used() == 0,
    {
        self.current_sample_vec = values;
        self.current_dim = 0;
    }

    /// Dimensions of the current sample not handed out yet.
    pub fn remaining(&self) -> (n: usize)
        requires
            self.wf(),
        ensures
            n == self.values().len() - self.used(),
    {
        self.current_sample_vec.len() - self.current_dim
    }

    /// The next unused dimension. The sample must have one left.
    pub fn next_dim(&mut self) -> (v: T)
        requires
            old(self).wf(),
            old(self).used() < old(self).values().len(),
        ensures
            final(self).wf(),
            final(self).values() == old(self).values(),
            final(self).used() == old(self).used() + 1,
            v == old(self).values()[old(self).used()],
    {
        let len = self.current_sample_vec.len();
        assert(self.current_dim < len);
        let v = self.current_sample_vec[self.current_dim];
        self.current_dim = self.current_dim + 1;
        v
    }

    /// One value: the next dimension.
    pub fn get_1d(&mut self) -> (v: T)
        requires
            old(self).wf(),
            old(self).used() + 1 <= old(self).values().len(),
        ensures
            final(self).wf(),
            final(self).values() == old(self).values(),
            final(self).used() == old(self).used() + 1,
            v == old(self).values()[old(self).used()],
    {
        self.next_dim()
    }

    /// Two values: the next two dimensions, in order.
    pub fn get_2d(&mut self) -> (v: Vec<T>)
        requires
            old(self).wf(),
            old(self).used() + 2 <= old(self).values().len(),
        ensures
            final(self).wf(),
            final(self).values() == old(self).values(),
            final(self).used() == old(self).used() + 2,
            v@ == old(self).values().subrange(old(self).used(), old(self).used() + 2),
    {
        let a = self.next_dim();
        let b = self.next_dim();
        let v = vec![a, b];
        assert(v@ =~= old(self).values().subrange(old(self).used(), old(self).used() + 2));
        v
    }

    /// Three values: the next three dimensions, in order.
    pub fn get_3d(&mut self) -> (v: Vec<T>)
        requires
            old(self).wf(),
            old(self).used() + 3 <= old(self).values().len(),
        ensures
            final(self).wf(),
            final(self).values() == old(self).values(),
            final(self).used() == old(self).used() + 3,
            v@ == old(self).values().subrange(old(self).used(), old(self).used() + 3),
    {
        let a = self.next_dim();
        let b = self.next_dim();
        let c = self.next_dim();
        let v = vec![a, b, c];
        assert(v@ =~= old(self).values().subrange(old(self).used(), old(self).used() + 3));
        v
    }
}

} // verus!
